use hoosh::tools::bash::{BashCommandClassifier, CommandRisk};

#[test]
fn test_safe_single_command() {
    assert_eq!(BashCommandClassifier::classify("ls -la"), CommandRisk::Safe);
    assert_eq!(
        BashCommandClassifier::classify("find . -name '*.rs'"),
        CommandRisk::Safe
    );
    assert_eq!(
        BashCommandClassifier::classify("cat README.md"),
        CommandRisk::Safe
    );
}

#[test]
fn test_safe_pipeline() {
    assert_eq!(
        BashCommandClassifier::classify("cat file.txt | grep error"),
        CommandRisk::Safe
    );
    assert_eq!(
        BashCommandClassifier::classify("find . -name '*.md' | head -3"),
        CommandRisk::Safe
    );
    assert_eq!(
        BashCommandClassifier::classify("cat Cargo.toml | grep version | wc -l"),
        CommandRisk::Safe
    );
}

#[test]
fn test_needs_review_single_command() {
    assert_eq!(
        BashCommandClassifier::classify("cargo build"),
        CommandRisk::NeedsReview
    );
    assert_eq!(
        BashCommandClassifier::classify("sed -i 's/test/TEST/g' file.txt"),
        CommandRisk::NeedsReview
    );
    assert_eq!(
        BashCommandClassifier::classify("rm file.txt"),
        CommandRisk::NeedsReview
    );
}

#[test]
fn test_needs_review_mixed_pipeline() {
    assert_eq!(
        BashCommandClassifier::classify("find . -name '*.md' | xargs sed -i 's/test/TEST/g'"),
        CommandRisk::NeedsReview
    );
    assert_eq!(
        BashCommandClassifier::classify("cat file.txt | sed 's/foo/bar/'"),
        CommandRisk::NeedsReview
    );
}

#[test]
fn test_needs_review_complex_chain() {
    assert_eq!(
        BashCommandClassifier::classify("cargo build && cargo test"),
        CommandRisk::NeedsReview
    );
    assert_eq!(
        BashCommandClassifier::classify("ls -la; cargo build; echo done"),
        CommandRisk::NeedsReview
    );
}

#[test]
fn classifier_test_whitelist_coverage() {
    let safe_commands = vec![
        "ls", "pwd", "cat", "head", "tail", "find", "grep", "wc", "sort", "echo", "which",
        "date",
    ];

    for cmd in safe_commands {
        assert!(BashCommandClassifier::is_whitelisted(cmd));
        assert_eq!(BashCommandClassifier::classify(cmd), CommandRisk::Safe);
    }
}

#[test]
fn test_heredoc_needs_review() {
    // Heredocs should always need review, even with safe commands
    assert_eq!(
        BashCommandClassifier::classify("cat <<EOF\nHello\nEOF"),
        CommandRisk::NeedsReview
    );
    assert_eq!(
        BashCommandClassifier::classify("cat <<'EOF'\nHello\nEOF"),
        CommandRisk::NeedsReview
    );
    assert_eq!(
        BashCommandClassifier::classify("echo <<EOF\ntest\nEOF"),
        CommandRisk::NeedsReview
    );
}

#[test]
fn test_herestring_needs_review() {
    assert_eq!(
        BashCommandClassifier::classify("cat <<< \"some text\""),
        CommandRisk::NeedsReview
    );
}
