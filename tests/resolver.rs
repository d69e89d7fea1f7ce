use youtube_comment_scraper::resolve::{is_probable_video_id, parse_video_id};

#[test]
fn bare_id_resolves_to_itself() {
    assert_eq!(parse_video_id("abc123DEF_-"), Some("abc123DEF_-".to_string()));
    assert_eq!(parse_video_id("dQw4w9WgXcQ"), Some("dQw4w9WgXcQ".to_string()));
}

#[test]
fn bare_id_is_trimmed() {
    assert_eq!(parse_video_id("  abc123DEF_-\n"), Some("abc123DEF_-".to_string()));
}

#[test]
fn short_link_resolves() {
    assert_eq!(parse_video_id("https://youtu.be/abc123DEF_-"), Some("abc123DEF_-".to_string()));
}

#[test]
fn watch_url_resolves() {
    assert_eq!(parse_video_id("https://example.com/watch?v=abc123DEF_-"), Some("abc123DEF_-".to_string()));
    assert_eq!(
        parse_video_id("https://www.youtube.com/watch?list=x&v=abc123DEF_-&t=10"),
        Some("abc123DEF_-".to_string())
    );
}

#[test]
fn shorts_url_resolves() {
    assert_eq!(parse_video_id("https://example.com/shorts/abc123DEF_-"), Some("abc123DEF_-".to_string()));
}

#[test]
fn empty_and_short_inputs_do_not_resolve() {
    assert_eq!(parse_video_id(""), None);
    assert_eq!(parse_video_id("   "), None);
    assert_eq!(parse_video_id("a"), None);
}

#[test]
fn url_without_candidate_does_not_resolve() {
    assert_eq!(parse_video_id("https://example.com/about"), None);
    assert_eq!(parse_video_id("https://example.com/shorts"), None);
    assert_eq!(parse_video_id("https://example.com/watch?v=bad!id"), None);
}

#[test]
fn short_link_with_bad_path_does_not_resolve() {
    assert_eq!(parse_video_id("https://youtu.be/x?v=abc123DEF_-"), None);
}

#[test]
fn id_shape_bounds() {
    assert!(!is_probable_video_id("abcde"));
    assert!(is_probable_video_id("abcdef"));
    assert!(is_probable_video_id(&"a".repeat(32)));
    assert!(!is_probable_video_id(&"a".repeat(33)));
    assert!(!is_probable_video_id("abc def"));
    assert!(!is_probable_video_id("abcdéf"));
}

#[test]
fn text_with_scheme_marker_is_parsed_as_url() {
    assert_eq!(parse_video_id("httpabcdef"), None);
}
