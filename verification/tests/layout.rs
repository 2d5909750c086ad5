use rust_tools::project_updates::locate_keyed;
use rust_tools::error::McpError;
use rust_tools::layout::project_layout;

#[test]
fn project_layout_places_state_and_production_roots() {
    let l = project_layout("p1").expect("valid project");
    assert_eq!(l.state_root, ".masihawam/creative/projects/p1");
    assert_eq!(l.production_root, "creative/p1");
    assert_eq!(l.assets_root, "creative/p1/assets");
    assert_eq!(l.scene_boards_root, "creative/p1/scene-boards");
    assert_eq!(l.graphs_root, ".masihawam/creative/projects/p1/graphs");
    assert_eq!(l.templates_root, ".masihawam/creative/projects/p1/templates");
    assert_eq!(l.games_root, "creative/p1/games");
    assert_eq!(l.qa_root, ".masihawam/creative/projects/p1/qa");
    assert_eq!(l.exports_root, "creative/p1/exports");
}

#[test]
fn project_layout_refuses_an_invalid_project_id() {
    assert_eq!(
        project_layout("../p1").map(|l| l.state_root),
        Err(McpError::InvalidRequest("project_id must be 1-64 ASCII letters, digits, '-' or '_'".to_string()))
    );
}

#[test]
fn fresh_ids_carry_their_prefix_and_hex_digits() {
    let id = rust_tools::ids::fresh_id("finding_");
    assert_eq!(id.len(), "finding_".len() + 32);
    assert!(id.starts_with("finding_"));
    assert!(id["finding_".len()..].chars().all(|c| c.is_ascii_digit() || ('a'..='f').contains(&c)));
    assert_ne!(id, rust_tools::ids::fresh_id("finding_"));
}

#[test]
fn keyed_lookups_find_the_first_match_or_refuse() {
    let ids = vec!["s1".to_string(), "s2".to_string(), "s2".to_string()];
    assert_eq!(locate_keyed(&ids, "s2", "unknown creative scene"), Ok(1));
    assert_eq!(
        locate_keyed(&ids, "s9", "unknown creative scene"),
        Err(McpError::InvalidRequest("unknown creative scene".to_string()))
    );
}
