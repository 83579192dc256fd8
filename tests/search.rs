use stratos_core::search::{calculate_file_score, extension_bonus, path_matches, score_lowered};

#[test]
fn test_calculate_file_score() {
    // Exact match
    assert_eq!(calculate_file_score("test", None, "test"), 100);

    // Starts with
    assert_eq!(calculate_file_score("test_file", None, "test"), 50);

    // Image (40)
    assert_eq!(calculate_file_score("pic", Some("png"), "pic"), 140);
    assert_eq!(calculate_file_score("foo", Some("jpg"), "bar"), 40);

    // Video (30)
    assert_eq!(calculate_file_score("vid", Some("mp4"), "bar"), 30);

    // Common (20)
    assert_eq!(calculate_file_score("doc", Some("txt"), "bar"), 20);

    // Prioritization check
    let img = calculate_file_score("a", Some("png"), "query");
    let vid = calculate_file_score("a", Some("mp4"), "query");
    let doc = calculate_file_score("a", Some("txt"), "query");
    let other = calculate_file_score("a", Some("bin"), "query");

    assert!(img > vid);
    assert!(vid > doc);
    assert!(doc > other);
}

#[test]
fn score_ignores_case() {
    assert_eq!(calculate_file_score("README", Some("MD"), "readme"), 120);
    assert_eq!(calculate_file_score("Photo_01", Some("JPEG"), "PHOTO"), 90);
}

#[test]
fn lowered_score_is_case_sensitive() {
    assert_eq!(score_lowered("README", Some("MD"), "readme"), 0);
    assert_eq!(extension_bonus("webm"), 30);
    assert_eq!(extension_bonus("xlsx"), 20);
    assert_eq!(extension_bonus(""), 0);
}

#[test]
fn hits_match_case_insensitively() {
    assert!(path_matches("/home/u/Docs/Report.PDF", "report"));
    assert!(path_matches("/a/b", ""));
    assert!(!path_matches("/a/b", "/a/b/c"));
    assert!(!path_matches("/home/u/notes.txt", "todo"));
}
