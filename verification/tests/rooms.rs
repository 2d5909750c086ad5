use rust_tools::contracts::PlayerMode;
use rust_tools::error::McpError;
use rust_tools::production::{GameBuildState, GameManifest, GameRuntimeBudget};
use rust_tools::rooms::{check_room_owner, create_room, join_room, leave_room, update_room, MultiplayerRoomState};

fn s(v: &str) -> String {
    v.to_string()
}

fn game(id: &str, mode: PlayerMode) -> GameManifest {
    GameManifest {
        game_id: s(id),
        title: s("Sky"),
        revision_id: None,
        production_intent: None,
        genre: s("arcade"),
        perspective: s("top_down"),
        core_loop: s("dodge"),
        win_condition: s("survive"),
        lose_condition: s("hit"),
        restart_behavior: s("instant"),
        progression: None,
        camera: None,
        language: None,
        physics_timing: s("{}"),
        style_formula: s("{}"),
        placeholder_policy: None,
        runtime_budget: GameRuntimeBudget { target_fps: None, max_asset_bytes: None, max_initial_load_ms: None },
        build_state: GameBuildState {
            source_revision: None,
            build_revision: None,
            accepted_build_revision: None,
            deployment_id: None,
            deployment_url: None,
            published: false,
        },
        player_mode: mode,
        target_devices: vec![],
        verbs: vec![],
        inputs: vec![],
        style_element_id: None,
        asset_roles: vec![],
    }
}

fn refused(e: McpError) -> String {
    match e {
        McpError::InvalidRequest(m) => m,
        McpError::Internal(m) => panic!("internal {m}"),
    }
}

fn room() -> MultiplayerRoomState {
    let games = vec![game("g1", PlayerMode::OnlineMultiplayer)];
    create_room(&games, "p1", "g1", "alice", "m1", s("{}"), 10).unwrap()
}

#[test]
fn rooms_need_an_online_game() {
    let r = room();
    assert!(r.room_id.starts_with("room_") && r.room_id.len() == 37);
    assert_eq!((r.revision, r.closed, r.member_ids.clone()), (1, false, vec![s("m1")]));
    let games = vec![game("g1", PlayerMode::Solo)];
    assert_eq!(
        refused(create_room(&games, "p1", "g1", "alice", "m1", s("{}"), 10).unwrap_err()),
        "multiplayer rooms require an online_multiplayer Game Manifest"
    );
    assert_eq!(refused(create_room(&games, "p1", "g9", "alice", "m1", s("{}"), 10).unwrap_err()), "unknown creative game");
}

#[test]
fn members_join_once_up_to_sixteen() {
    let mut r = room();
    assert_eq!(refused(join_room(&mut r, "bob", "m2", 11).unwrap_err()), "multiplayer room is not owned by the authenticated caller");
    join_room(&mut r, "alice", "m1", 11).unwrap();
    assert_eq!(r.member_ids.len(), 1);
    assert_eq!(r.revision, 2);
    for k in 2..=16 {
        join_room(&mut r, "alice", &format!("m{k}"), 12).unwrap();
    }
    assert_eq!(refused(join_room(&mut r, "alice", "m17", 13).unwrap_err()), "multiplayer room is full");
    assert!(check_room_owner(&r, "alice").is_ok());
    assert!(check_room_owner(&r, "bob").is_err());
}

#[test]
fn stale_updates_conflict_and_empty_rooms_close() {
    let mut r = room();
    update_room(&mut r, "alice", Some(1), Some(s("{\"score\":1}")), 11).unwrap();
    assert_eq!(r.revision, 2);
    assert_eq!(r.shared_state, "{\"score\":1}");
    assert_eq!(
        refused(update_room(&mut r, "alice", Some(1), Some(s("{}")), 12).unwrap_err()),
        "multiplayer room revision conflict"
    );
    assert_eq!(refused(update_room(&mut r, "alice", None, Some(s("{}")), 12).unwrap_err()), "expected_revision is required");
    assert!(update_room(&mut r, "alice", Some(2), Some(s("[1]")), 12).is_err());
    leave_room(&mut r, "alice", "m1", 13).unwrap();
    assert!(r.closed && r.member_ids.is_empty());
    assert_eq!(refused(join_room(&mut r, "alice", "m2", 14).unwrap_err()), "multiplayer room is closed");
}
