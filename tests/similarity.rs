use linkcheck::{is_similar_path, within_threshold, SimilaritySearch, MAX_THRESHOLD};

#[test]
fn budget_grows_with_candidate_length() {
    // 16 bytes: budget 3
    assert!(within_threshold(3, "./docs/readme.md"));
    assert!(!within_threshold(4, "./docs/readme.md"));
    // 4 bytes: budget 0
    assert!(within_threshold(0, "a.md"));
    assert!(!within_threshold(1, "a.md"));
}

#[test]
fn budget_is_capped() {
    let long = "./a/very/long/path/to/some/deeply/nested/file.md";
    assert!(within_threshold(MAX_THRESHOLD, long));
    assert!(!within_threshold(MAX_THRESHOLD + 1, long));
}

#[test]
fn budget_counts_bytes() {
    // four chars, eight bytes: budget 1
    assert!(within_threshold(1, "éééé"));
    assert!(!within_threshold(2, "éééé"));
}

#[test]
fn typo_is_similar() {
    assert!(is_similar_path("./docs/reedme.md", "./docs/readme.md"));
    assert!(is_similar_path("./docs/readme.md", "./docs/readme.md"));
}

#[test]
fn distant_path_is_not_similar() {
    assert!(!is_similar_path("./docs/reedme.md", "./src/main.rs"));
    // distance 1, but a 4-byte candidate allows no edit
    assert!(!is_similar_path("b.md", "a.md"));
}

#[test]
fn walk_gathers_similar_files_once_per_directory() {
    let mut s = SimilaritySearch::new("./docs/reedme.md".to_string(), ".".to_string(), "/r".to_string());
    assert_eq!(s.next_dir(), Some(".".to_string()));
    s.enter_dir("./docs".to_string(), "/r/docs".to_string());
    s.visit_file("./README.md".to_string());
    assert_eq!(s.next_dir(), Some("./docs".to_string()));
    s.visit_file("./docs/readme.md".to_string());
    s.visit_file("./docs/other.md".to_string());
    // a link back to the root is not entered again
    s.enter_dir("./docs/up".to_string(), "/r".to_string());
    s.enter_dir("./docs/again".to_string(), "/r/docs".to_string());
    assert_eq!(s.next_dir(), None);
    assert_eq!(s.into_matches(), vec!["./docs/readme.md".to_string()]);
}

#[test]
fn walk_with_nothing_similar_gives_no_suggestion() {
    let mut s = SimilaritySearch::new("./missing_file.md".to_string(), ".".to_string(), "/r".to_string());
    assert_eq!(s.next_dir(), Some(".".to_string()));
    s.visit_file("./Cargo.toml".to_string());
    assert_eq!(s.next_dir(), None);
    assert!(s.into_matches().is_empty());
}
