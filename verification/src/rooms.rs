use vstd::prelude::*;
use crate::contracts::PlayerMode;
use crate::error::{invalid, invalid_with, McpError};
use crate::jobs::{is_bounded_spec, spec_refusal, validate_spec};
use crate::outside::{is_lower_hex, random_simple_uuid};
use crate::production::GameManifest;
use crate::text::{contains_str, has_view, id_rule, is_valid_id, str_eq, validate_id};

verus! {

pub const MAX_ROOM_MEMBERS: usize = 16;

/// The shared state of a multiplayer room of a game. `shared_state` is JSON text.
#[derive(Debug)]
pub struct MultiplayerRoomState {
    pub room_id: String,
    pub project_id: String,
    pub game_id: String,
    pub owner: String,
    pub member_ids: Vec<String>,
    pub shared_state: String,
    pub revision: u64,
    pub closed: bool,
    pub created_at_ms: u128,
    pub updated_at_ms: u128,
}

pub open spec fn next_revision(r: u64) -> u64 {
    if r == u64::MAX { r } else { (r + 1) as u64 }
}

/// `i` is the first game with identity `id`.
pub open spec fn first_game(games: Seq<GameManifest>, id: Seq<char>, i: int) -> bool {
    &&& 0 <= i < games.len()
    &&& games[i].game_id@ == id
    &&& forall|k: int| 0 <= k < i ==> (#[trigger] games[k]).game_id@ != id
}

/// The first game with identity `id`, where the project has one.
pub open spec fn game_index(games: Seq<GameManifest>, id: Seq<char>) -> Option<int> {
    if exists|i: int| #[trigger] first_game(games, id, i) {
        Some(choose|i: int| #[trigger] first_game(games, id, i))
    } else {
        None
    }
}

proof fn lemma_game_index(games: Seq<GameManifest>, id: Seq<char>, i: int)
    requires
        first_game(games, id, i),
    ensures
        game_index(games, id) == Some(i),
{
    let c = choose|c: int| #[trigger] first_game(games, id, c);
    assert(first_game(games, id, c));
    if c < i {
        assert(games[c].game_id@ == id);
    } else if i < c {
        assert(games[i].game_id@ == id);
    }
}

fn find_game(games: &Vec<GameManifest>, id: &str) -> (r: Option<usize>)
    ensures
        match r {
            Some(g) => first_game(games@, id@, g as int),
            None => forall|j: int| 0 <= j < games@.len() ==> (#[trigger] games@[j]).game_id@ != id@,
        },
{
    let mut k: usize = 0;
    while k < games.len()
        invariant
            k <= games.len(),
            forall|j: int| 0 <= j < k ==> (#[trigger] games@[j]).game_id@ != id@,
        decreases games.len() - k,
    {
        if str_eq(games[k].game_id.as_str(), id) {
            return Some(k);
        }
        k += 1;
    }
    None
}

/// Why opening a room is refused, in the order of the checks.
pub open spec fn room_create_refusal(games: Seq<GameManifest>, game_id: Seq<char>, member_id: Seq<char>) -> Option<Seq<char>> {
    if !is_valid_id(member_id) {
        Some("multiplayer member id"@ + id_rule())
    } else if game_index(games, game_id) is None {
        Some("unknown creative game"@)
    } else if games[game_index(games, game_id)->0].player_mode != PlayerMode::OnlineMultiplayer {
        Some("multiplayer rooms require an online_multiplayer Game Manifest"@)
    } else {
        None
    }
}

/// Opens a room of an online multiplayer game with its first member, at revision 1,
/// under a fresh identity `room_` followed by 32 lowercase hexadecimal digits.
pub fn create_room(
    games: &Vec<GameManifest>,
    project_id: &str,
    game_id: &str,
    owner: &str,
    member_id: &str,
    shared_state: String,
    now: u128,
) -> (r: Result<MultiplayerRoomState, McpError>)
    ensures
        match r {
            Ok(room) => room_create_refusal(games@, game_id@, member_id@) is None
                && room.room_id@.len() == 37 && room.room_id@.take(5) == "room_"@ && is_lower_hex(room.room_id@.skip(5))
                && room.project_id@ == project_id@ && room.game_id@ == game_id@ && room.owner@ == owner@
                && room.member_ids@.len() == 1 && room.member_ids@[0]@ == member_id@
                && room.shared_state == shared_state && room.revision == 1 && !room.closed
                && room.created_at_ms == now && room.updated_at_ms == now,
            Err(e) => room_create_refusal(games@, game_id@, member_id@) matches Some(m) && invalid_with(e, m),
        },
{
    match validate_id(member_id, "multiplayer member id") {
        Ok(()) => {},
        Err(e) => { return Err(e); },
    }
    let found = find_game(games, game_id);
    let g = match found {
        Some(g) => g,
        None => {
            proof {
                assert forall|i: int| !#[trigger] first_game(games@, game_id@, i) by {
                    if 0 <= i < games@.len() {
                        assert(games@[i].game_id@ != game_id@);
                    }
                }
            }
            return Err(invalid("unknown creative game"));
        },
    };
    proof {
        assert(first_game(games@, game_id@, g as int));
        lemma_game_index(games@, game_id@, g as int);
    }
    if games[g].player_mode != PlayerMode::OnlineMultiplayer {
        return Err(invalid("multiplayer rooms require an online_multiplayer Game Manifest"));
    }
    let suffix = random_simple_uuid();
    let mut room_id = String::from_str("room_");
    room_id.append(suffix.as_str());
    proof {
        reveal_strlit("room_");
        assert(room_id@.take(5) =~= "room_"@);
        assert(room_id@.skip(5) =~= suffix@);
    }
    let mut members: Vec<String> = Vec::new();
    members.push(member_id.to_owned());
    Ok(MultiplayerRoomState {
        room_id,
        project_id: project_id.to_owned(),
        game_id: game_id.to_owned(),
        owner: owner.to_owned(),
        member_ids: members,
        shared_state,
        revision: 1,
        closed: false,
        created_at_ms: now,
        updated_at_ms: now,
    })
}

/// Why joining a room is refused, in the order of the checks.
pub open spec fn join_refusal(room: MultiplayerRoomState, owner: Seq<char>, member_id: Seq<char>) -> Option<Seq<char>> {
    if room.owner@ != owner {
        Some("multiplayer room is not owned by the authenticated caller"@)
    } else if room.closed {
        Some("multiplayer room is closed"@)
    } else if !is_valid_id(member_id) {
        Some("multiplayer member id"@ + id_rule())
    } else if !has_view(room.member_ids@, member_id) && room.member_ids@.len() >= MAX_ROOM_MEMBERS {
        Some("multiplayer room is full"@)
    } else {
        None
    }
}

/// `e` refuses with the message `reason` names.
pub open spec fn refused_by(e: McpError, reason: Option<Seq<char>>) -> bool {
    reason matches Some(m) && invalid_with(e, m)
}

/// `after` is `before` at the next revision, changed at `now`, with the given shared
/// state and closed flag; the members are said apart.
pub open spec fn room_changed(before: MultiplayerRoomState, after: MultiplayerRoomState, shared_state: String, closed: bool, now: u128) -> bool {
    after == (MultiplayerRoomState {
        member_ids: after.member_ids,
        shared_state,
        revision: next_revision(before.revision),
        closed,
        updated_at_ms: now,
        ..before
    })
}

/// The members after `member` joined: unchanged where it is a member, else it is added last.
pub open spec fn joined(before: Seq<String>, after: Seq<String>, member: Seq<char>) -> bool {
    if has_view(before, member) {
        after == before
    } else {
        after.len() == before.len() + 1 && after.take(before.len() as int) == before && after.last()@ == member
    }
}

/// Adds a member to the owner's open room, once; a full room takes no new member.
pub fn join_room(room: &mut MultiplayerRoomState, owner: &str, member_id: &str, now: u128) -> (r: Result<(), McpError>)
    ensures
        match r {
            Ok(()) => join_refusal(*old(room), owner@, member_id@) is None
                && room_changed(*old(room), *final(room), old(room).shared_state, old(room).closed, now)
                && joined(old(room).member_ids@, final(room).member_ids@, member_id@),
            Err(e) => *final(room) == *old(room) && refused_by(e, join_refusal(*old(room), owner@, member_id@)),
        },
{
    if !str_eq(room.owner.as_str(), owner) {
        return Err(invalid("multiplayer room is not owned by the authenticated caller"));
    }
    if room.closed {
        return Err(invalid("multiplayer room is closed"));
    }
    match validate_id(member_id, "multiplayer member id") {
        Ok(()) => {},
        Err(e) => { return Err(e); },
    }
    if !contains_str(&room.member_ids, member_id) {
        if room.member_ids.len() >= MAX_ROOM_MEMBERS {
            return Err(invalid("multiplayer room is full"));
        }
        room.member_ids.push(member_id.to_owned());
        proof {
            assert(room.member_ids@.take(old(room).member_ids@.len() as int) =~= old(room).member_ids@);
        }
    }
    room.revision = room.revision.saturating_add(1);
    room.updated_at_ms = now;
    Ok(())
}

/// Why updating a room's shared state is refused, in the order of the checks before the
/// new state itself is checked.
pub open spec fn update_refusal(room: MultiplayerRoomState, owner: Seq<char>, expected_revision: Option<u64>, shared_state: Option<Seq<char>>) -> Option<Seq<char>> {
    if room.owner@ != owner {
        Some("multiplayer room is not owned by the authenticated caller"@)
    } else if room.closed {
        Some("multiplayer room is closed"@)
    } else if expected_revision is None {
        Some("expected_revision is required"@)
    } else if expected_revision != Some(room.revision) {
        Some("multiplayer room revision conflict"@)
    } else if shared_state is None {
        Some("shared_state is required"@)
    } else {
        None
    }
}

pub open spec fn opt_text(s: Option<String>) -> Option<Seq<char>> {
    match s { Some(v) => Some(v@), None => None }
}

/// Replaces the shared state of the owner's open room, where the caller saw its current
/// revision.
pub fn update_room(room: &mut MultiplayerRoomState, owner: &str, expected_revision: Option<u64>, shared_state: Option<String>, now: u128) -> (r: Result<(), McpError>)
    ensures
        match r {
            Ok(()) => update_refusal(*old(room), owner@, expected_revision, opt_text(shared_state)) is None
                && is_bounded_spec(shared_state->0@)
                && room_changed(*old(room), *final(room), shared_state->0, old(room).closed, now)
                && final(room).member_ids == old(room).member_ids,
            Err(e) => *final(room) == *old(room) && e is InvalidRequest
                && (match update_refusal(*old(room), owner@, expected_revision, opt_text(shared_state)) {
                    Some(m) => invalid_with(e, m),
                    None => !is_bounded_spec(shared_state->0@) && invalid_with(e, spec_refusal(shared_state->0@)),
                }),
        },
{
    if !str_eq(room.owner.as_str(), owner) {
        return Err(invalid("multiplayer room is not owned by the authenticated caller"));
    }
    if room.closed {
        return Err(invalid("multiplayer room is closed"));
    }
    let expected = match expected_revision {
        Some(v) => v,
        None => { return Err(invalid("expected_revision is required")); },
    };
    if expected != room.revision {
        return Err(invalid("multiplayer room revision conflict"));
    }
    let state = match shared_state {
        Some(v) => v,
        None => { return Err(invalid("shared_state is required")); },
    };
    match validate_spec(state.as_str()) {
        Ok(()) => {},
        Err(e) => { return Err(e); },
    }
    room.shared_state = state;
    room.revision = room.revision.saturating_add(1);
    room.updated_at_ms = now;
    Ok(())
}

/// The members left after `member` leaves.
pub open spec fn without_member(members: Seq<String>, member: Seq<char>) -> Seq<String> {
    members.filter(|m: String| m@ != member)
}

/// Removes a member from the owner's room; a room that no member is left in is closed.
pub fn leave_room(room: &mut MultiplayerRoomState, owner: &str, member_id: &str, now: u128) -> (r: Result<(), McpError>)
    ensures
        match r {
            Ok(()) => old(room).owner@ == owner@
                && room_changed(*old(room), *final(room), old(room).shared_state,
                    without_member(old(room).member_ids@, member_id@).len() == 0, now)
                && final(room).member_ids@ == without_member(old(room).member_ids@, member_id@),
            Err(e) => *final(room) == *old(room) && old(room).owner@ != owner@
                && invalid_with(e, "multiplayer room is not owned by the authenticated caller"@),
        },
{
    if !str_eq(room.owner.as_str(), owner) {
        return Err(invalid("multiplayer room is not owned by the authenticated caller"));
    }
    let mut kept: Vec<String> = Vec::new();
    let mut i: usize = 0;
    while i < room.member_ids.len()
        invariant
            i <= room.member_ids@.len(),
            room.member_ids == old(room).member_ids,
            kept@ == without_member(room.member_ids@.take(i as int), member_id@),
        decreases room.member_ids@.len() - i,
    {
        proof {
            let t = room.member_ids@.take(i + 1);
            assert(t.drop_last() =~= room.member_ids@.take(i as int));
            assert(t.last() == room.member_ids@[i as int]);
            reveal(Seq::filter);
        }
        if !str_eq(room.member_ids[i].as_str(), member_id) {
            kept.push(room.member_ids[i].clone());
        }
        i += 1;
    }
    proof {
        assert(room.member_ids@.take(room.member_ids@.len() as int) =~= room.member_ids@);
    }
    room.closed = kept.len() == 0;
    room.member_ids = kept;
    room.revision = room.revision.saturating_add(1);
    room.updated_at_ms = now;
    Ok(())
}

/// A caller who saw an older revision cannot overwrite a room: after any change that
/// moved the revision on, an update that expects the old revision is refused.
pub proof fn law_stale_room_update_refused(
    before: MultiplayerRoomState,
    after: MultiplayerRoomState,
    shared_state: String,
    closed: bool,
    now: u128,
    owner: Seq<char>,
    new_state: Option<Seq<char>>,
)
    requires
        room_changed(before, after, shared_state, closed, now),
        before.revision < u64::MAX,
    ensures
        update_refusal(after, owner, Some(before.revision), new_state) is Some,
{
}

/// Lets only the room's owner read it.
pub fn check_room_owner(room: &MultiplayerRoomState, owner: &str) -> (r: Result<(), McpError>)
    ensures
        r is Ok <==> room.owner@ == owner@,
        r matches Err(e) ==> invalid_with(e, "multiplayer room is not owned by the authenticated caller"@),
{
    if !str_eq(room.owner.as_str(), owner) {
        return Err(invalid("multiplayer room is not owned by the authenticated caller"));
    }
    Ok(())
}

/// A room the store keeps: valid identities, an owner of 1 to 256 bytes, at most 16
/// members (at least one while open), each a valid identity, and a bounded shared state.
pub open spec fn room_storable(room: MultiplayerRoomState) -> bool {
    &&& is_valid_id(room.project_id@) && is_valid_id(room.game_id@) && is_valid_id(room.room_id@)
    &&& room.owner@.len() > 0 && crate::text::byte_len(room.owner@) <= 256
    &&& room.member_ids@.len() <= MAX_ROOM_MEMBERS
    &&& (room.closed || room.member_ids@.len() > 0)
    &&& forall|i: int| 0 <= i < room.member_ids@.len() ==> is_valid_id((#[trigger] room.member_ids@[i])@)
    &&& is_bounded_spec(room.shared_state@)
}

/// Why the store refuses a room, in the order it checks.
pub open spec fn room_refusal(room: MultiplayerRoomState) -> Seq<char> {
    if !is_valid_id(room.project_id@) {
        "project_id"@ + id_rule()
    } else if !is_valid_id(room.game_id@) {
        "game_id"@ + id_rule()
    } else if !is_valid_id(room.room_id@) {
        "room_id"@ + id_rule()
    } else if !(room.owner@.len() > 0 && crate::text::byte_len(room.owner@) <= 256) {
        "multiplayer room owner is invalid"@
    } else if !(room.member_ids@.len() <= MAX_ROOM_MEMBERS && (room.closed || room.member_ids@.len() > 0)) {
        "multiplayer room member count exceeds allowed bounds"@
    } else if exists|i: int| 0 <= i < room.member_ids@.len() && !is_valid_id((#[trigger] room.member_ids@[i])@) {
        "multiplayer member id"@ + id_rule()
    } else {
        spec_refusal(room.shared_state@)
    }
}

/// Checks a room before the store keeps it.
#[verifier::loop_isolation(false)]
pub fn validate_room(room: &MultiplayerRoomState) -> (r: Result<(), McpError>)
    ensures
        r is Ok <==> room_storable(*room),
        r matches Err(e) ==> invalid_with(e, room_refusal(*room)),
{
    match validate_id(room.project_id.as_str(), "project_id") {
        Err(e) => { return Err(e); },
        Ok(()) => {},
    }
    match validate_id(room.game_id.as_str(), "game_id") {
        Err(e) => { return Err(e); },
        Ok(()) => {},
    }
    match validate_id(room.room_id.as_str(), "room_id") {
        Err(e) => { return Err(e); },
        Ok(()) => {},
    }
    if room.owner.as_str().is_empty() || room.owner.as_str().len() > 256 {
        return Err(invalid("multiplayer room owner is invalid"));
    }
    if room.member_ids.len() > MAX_ROOM_MEMBERS || (!room.closed && room.member_ids.len() == 0) {
        return Err(invalid("multiplayer room member count exceeds allowed bounds"));
    }
    let mut i: usize = 0;
    while i < room.member_ids.len()
        invariant
            i <= room.member_ids@.len(),
            forall|k: int| 0 <= k < i ==> is_valid_id((#[trigger] room.member_ids@[k])@),
        decreases room.member_ids@.len() - i,
    {
        match validate_id(room.member_ids[i].as_str(), "multiplayer member id") {
            Err(e) => {
                assert(!is_valid_id(room.member_ids@[i as int]@));
                return Err(e);
            },
            Ok(()) => {},
        }
        i += 1;
    }
    validate_spec(room.shared_state.as_str())
}

/// Where the store keeps a room.
pub fn room_state_path(project_id: &str, game_id: &str, room_id: &str) -> (p: String)
    ensures
        p@ == ".masihawam/creative/projects/"@ + project_id@ + "/games/"@ + game_id@ + "/rooms/"@ + room_id@ + ".json"@,
{
    let mut p = String::from_str(".masihawam/creative/projects/");
    p.append(project_id);
    p.append("/games/");
    p.append(game_id);
    p.append("/rooms/");
    p.append(room_id);
    p.append(".json");
    p
}

} // verus!
