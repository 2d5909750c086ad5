use rust_tools::dispatcher::{dispatch, Dispatch};
use rust_tools::text::{normalize_content_type, validate_id, validate_text, validate_freeform_text};

#[test]
fn dispatch_routes_known_methods() {
    assert!(matches!(dispatch("server/discover"), Dispatch::Discover));
    assert!(matches!(dispatch("tools/call"), Dispatch::ToolsCall));
    assert!(matches!(dispatch("server/activity_status"), Dispatch::ActivityStatus));
    match dispatch("nope/unknown") {
        Dispatch::Unknown(m) => assert_eq!(m, "nope/unknown"),
        _ => panic!("expected unknown"),
    }
}

#[test]
fn ids_are_bounded_ascii() {
    assert!(validate_id("abc-DEF_123", "id").is_ok());
    assert!(validate_id("", "id").is_err());
    assert!(validate_id(&"a".repeat(64), "id").is_ok());
    assert!(validate_id(&"a".repeat(65), "id").is_err());
    assert!(validate_id("a b", "id").is_err());
    assert!(validate_id("é", "id").is_err());
}

#[test]
fn text_bounds_count_bytes_and_control_codes() {
    assert!(validate_text("hello", 1, 5, "t").is_ok());
    assert!(validate_text("héllo", 1, 5, "t").is_err());
    assert!(validate_text("a\tb", 1, 10, "t").is_err());
    assert!(validate_freeform_text("a\tb\nc", 1, 10, "t").is_ok());
    assert!(validate_freeform_text("a\u{7}b", 1, 10, "t").is_err());
}

#[test]
fn content_types_are_normalized() {
    assert_eq!(normalize_content_type("  Image/PNG ; charset=x"), "image/png");
    assert_eq!(normalize_content_type("video/mp4"), "video/mp4");
    assert_eq!(normalize_content_type(";"), "");
}
