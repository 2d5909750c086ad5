use rust_tools::game::{build_revision, html_escape, reviewed_index_html, short_job_id, source_revision};
use rust_tools::ingest::{filename_from_url, sanitize_filename, sha256_text, validate_media_type, validate_owner, validate_role};
use rust_tools::order::{sort_dedup, sort_strings, str_lt};
use rust_tools::paths::{has_only_normal_components, normal_component_list, split_pieces, starts_with_components};
use rust_tools::text::{distinct_strings, hex_encode};

fn strings(items: &[&str]) -> Vec<String> {
    items.iter().map(|s| s.to_string()).collect()
}

#[test]
fn strings_order_lexicographically_by_character() {
    assert!(str_lt("abc", "abd"));
    assert!(str_lt("ab", "abc"));
    assert!(!str_lt("abc", "abc"));
    assert!(!str_lt("b", "abc"));
    assert!(str_lt("Z", "a"));
}

#[test]
fn sorting_keeps_every_item_in_order() {
    let sorted = sort_strings(strings(&["pear", "apple", "fig", "apple"]));
    assert_eq!(sorted, strings(&["apple", "apple", "fig", "pear"]));
    let dedup = sort_dedup(strings(&["pear", "apple", "fig", "apple"]));
    assert_eq!(dedup, strings(&["apple", "fig", "pear"]));
    assert!(sort_dedup(Vec::new()).is_empty());
}

#[test]
fn distinct_strings_detects_repeats() {
    assert!(distinct_strings(&strings(&["a", "b", "c"])));
    assert!(!distinct_strings(&strings(&["a", "b", "a"])));
    assert!(distinct_strings(&Vec::new()));
}

#[test]
fn hex_is_lower_case_two_digits_per_byte() {
    assert_eq!(hex_encode(&vec![0u8, 15, 16, 255]), "000f10ff");
    assert_eq!(hex_encode(&Vec::new()), "");
}

#[test]
fn sha256_text_is_the_hex_digest() {
    assert_eq!(sha256_text("abc"), "ba7816bf8f01cfea414140de5dae2223b00361a396177a9cb410ff61f20015ad");
    assert_eq!(sha256_text(""), "e3b0c44298fc1c149afbf4c8996fb92427ae41e4649b934ca495991b7852b855");
}

#[test]
fn path_pieces_and_components() {
    assert_eq!(split_pieces("a/b//c"), strings(&["a", "b", "", "c"]));
    assert!(has_only_normal_components("assets/img/cat.png"));
    assert!(!has_only_normal_components("assets/../secret"));
    assert!(!has_only_normal_components("/abs/path"));
    assert_eq!(normal_component_list("a/./b/"), strings(&["a", "b"]));
    assert!(starts_with_components("creative/p1/assets/x.png", &vec!["creative", "p1"]));
    assert!(!starts_with_components("creative/p10/x.png", &vec!["creative", "p1"]));
}

#[test]
fn filenames_are_sanitized() {
    assert_eq!(sanitize_filename("my photo (1).png").unwrap(), "my_photo__1_.png");
    assert_eq!(sanitize_filename("clip-01_final.mp4").unwrap(), "clip-01_final.mp4");
    assert!(sanitize_filename("").is_err());
    assert!(sanitize_filename("..").is_err());
    assert!(sanitize_filename("a/b.png").is_err());
    assert!(sanitize_filename("a\\b.png").is_err());
    assert!(sanitize_filename(".hidden").is_err());
    assert!(sanitize_filename("bad\u{1}name").is_err());
    assert!(sanitize_filename(&"a".repeat(256)).is_err());
}

#[test]
fn url_filenames_fall_back_to_the_media_type() {
    assert_eq!(filename_from_url("https://example.com/media/cat.png", "image/png"), "cat.png");
    assert_eq!(filename_from_url("https://example.com/", "image/png"), "import.png");
    assert_eq!(filename_from_url("https://example.com/", "audio/mpeg"), "import.mp3");
    assert_eq!(filename_from_url("https://example.com/", "text/plain"), "import.bin");
    assert_eq!(filename_from_url("https://example.com/a/.env", "model/gltf-binary"), "import.glb");
}

#[test]
fn upload_fields_are_checked() {
    assert!(validate_owner("user-1").is_ok());
    assert!(validate_owner("").is_err());
    assert!(validate_role("reference").is_ok());
    assert!(validate_role("").is_err());
    assert!(validate_media_type("image/png").is_ok());
    assert!(validate_media_type("application/x-unknown").is_err());
}

#[test]
fn html_text_is_escaped() {
    assert_eq!(html_escape("a<b & \"c\">"), "a&lt;b &amp; &quot;c&quot;&gt;");
    assert_eq!(html_escape("it's"), "it's");
    assert_eq!(html_escape(""), "");
}

#[test]
fn revision_names_drop_the_job_prefix() {
    assert_eq!(short_job_id("job_abc"), "abc");
    assert_eq!(short_job_id("abc"), "abc");
    assert_eq!(short_job_id("job_"), "");
    assert_eq!(build_revision("job_42"), "build_42");
    assert_eq!(source_revision("x9"), "source_x9");
}

#[test]
fn index_page_escapes_its_title() {
    let page = reviewed_index_html("A & B", "platformer");
    assert!(page.starts_with("<!doctype html>"));
    assert!(page.contains("<title>A &amp; B</title>"));
    assert!(page.contains("data-template=\"platformer\""));
}
