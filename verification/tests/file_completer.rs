use hoosh::tui::completion::file_completer::FileCompleter;
use std::path::PathBuf;

#[test]
fn test_fuzzy_match() {
    assert!(FileCompleter::fuzzy_match("src", "src/main.rs"));
    assert!(FileCompleter::fuzzy_match("smai", "src/main.rs"));
    assert!(FileCompleter::fuzzy_match("", "anything"));
    assert!(!FileCompleter::fuzzy_match("xyz", "abc"));
}

#[test]
fn test_score_match() {
    // Exact match should score highest
    assert!(
        FileCompleter::score_match("test", "test")
            > FileCompleter::score_match("test", "test.rs")
    );

    // Prefix match should score higher than fuzzy
    assert!(
        FileCompleter::score_match("src", "src/main.rs")
            > FileCompleter::score_match("src", "source/main.rs")
    );

    // Shorter paths should score higher
    assert!(
        FileCompleter::score_match("test", "test.rs")
            > FileCompleter::score_match("test", "long/path/to/test.rs")
    );
}

#[test]
fn scores_add_up_as_described() {
    assert_eq!(FileCompleter::score_match("Test", "tEST"), 1000);
    // starts with, contains, fuzzy: 500 + 300 + 100 - 7 bytes
    assert_eq!(FileCompleter::score_match("test", "test.rs"), 893);
    // contains and fuzzy only: 300 + 100 - 9
    assert_eq!(FileCompleter::score_match("est", "a/test.rs"), 391);
    // fuzzy only: 100 - 11
    assert_eq!(FileCompleter::score_match("smn", "src/main.rs"), 89);
    // no match at all: - 3
    assert_eq!(FileCompleter::score_match("zz", "abc"), -3);
    // bytes, not characters, are counted
    assert_eq!(FileCompleter::score_match("q", "é"), -2);
}

#[test]
fn fuzzy_matching_ignores_case_and_needs_order() {
    assert!(FileCompleter::fuzzy_match("MAIN", "src/Main.rs"));
    assert!(!FileCompleter::fuzzy_match("niam", "src/main.rs"));
    assert!(!FileCompleter::fuzzy_match("aa", "a"));
}

#[test]
fn completions_best_first_and_capped() {
    let paths: Vec<String> = vec![
        "long/path/to/test.rs".to_string(),
        "test.rs".to_string(),
        "other.txt".to_string(),
        "test".to_string(),
        "a/test.rs".to_string(),
    ];
    assert_eq!(
        FileCompleter::rank_completions("test", &paths),
        vec!["test", "test.rs", "a/test.rs", "long/path/to/test.rs"]
    );
    let many: Vec<String> = (0..70).map(|i| format!("f{:02}", i)).collect();
    let ranked = FileCompleter::rank_completions("f", &many);
    assert_eq!(ranked.len(), 50);
    // equal scores keep their listed order
    assert_eq!(ranked[0], "f00");
    assert_eq!(ranked[49], "f49");
    assert!(FileCompleter::rank_completions("zzz", &paths).is_empty());
}

#[test]
fn completer_basics() {
    let c = FileCompleter::new(PathBuf::from("/work"));
    assert_eq!(c.working_directory(), &PathBuf::from("/work"));
    assert_eq!(c.trigger_key(), '@');
    assert_eq!(c.format_completion("src/lib.rs"), "src/lib.rs");
    assert!(FileCompleter::skips_entry(".git"));
    assert!(FileCompleter::skips_entry("target"));
    assert!(FileCompleter::skips_entry("node_modules"));
    assert!(!FileCompleter::skips_entry("src"));
    assert!(!FileCompleter::skips_entry("targets"));
}
