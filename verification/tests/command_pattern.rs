use hoosh::tools::bash::command_pattern::{
    compound_matches, BashCommandPattern, CommandChainPattern, HeredocPattern, NetworkReadPattern, PipelinePattern,
    RedirectionPattern, SingleCommandPattern, SubshellPattern,
};
use hoosh::tools::bash::BashCommandPatternRegistry;

#[test]
fn test_heredoc_pattern_matches() {
    let pattern = HeredocPattern;
    assert!(pattern.matches("cat <<EOF\nHello\nEOF"));
    assert!(pattern.matches("cat <<'EOF'\nHello\nEOF"));
    assert!(!pattern.matches("cat file.txt"));
}

#[test]
fn test_heredoc_pattern_analyze() {
    let pattern = HeredocPattern;
    let result = pattern.analyze("cat <<EOF\nHello\nEOF");
    assert_eq!(result.pattern, "cat:<<");
    assert!(result.persistent_message.contains("heredoc"));
    assert!(!result.safe);
}

#[test]
fn test_pipeline_pattern_matches() {
    let pattern = PipelinePattern;
    assert!(pattern.matches("cat file | grep error"));
    assert!(!pattern.matches("cat file || echo failed"));
    assert!(!pattern.matches("cat file.txt"));
}

#[test]
fn test_pipeline_pattern_same_command() {
    let pattern = PipelinePattern;
    let result = pattern.analyze("cat file | cat");
    assert_eq!(result.pattern, "cat:*");
}

#[test]
fn test_pipeline_pattern_different_commands() {
    let pattern = PipelinePattern;
    // All read-only: nothing to strip, so the rule keys on bare names with
    // clean wording (no "pipe combination of ...").
    let result = pattern.analyze("cat file | grep error | wc -l");
    assert_eq!(result.pattern, "cat:*|grep:*|wc:*");
    assert!(!result.persistent_message.contains("pipe combination"));
    assert!(result.persistent_message.contains("\"cat\""));
}

/// The motivating case: read-only/`cd` noise is stripped so the rule keys on
/// the one meaningful command, with clean single-command wording.
#[test]
fn test_pipeline_strips_noise_to_single_meaningful_command() {
    let pattern = PipelinePattern;
    let result =
        pattern.analyze("cd apps/web && npx playwright test x 2>&1 | grep -A 25 \"image\"");
    assert_eq!(result.pattern, "npx playwright:*");
    assert!(!result.safe);
    assert!(result.persistent_message.contains("npx playwright"));
    assert!(!result.persistent_message.contains("pipe combination"));
    assert!(!result.persistent_message.contains("grep"));
    // And the generated rule re-matches the command it came from.
    assert!(pattern.matches_pattern(
        &result.pattern,
        "cd apps/web && npx playwright test x 2>&1 | grep -A 25 \"image\""
    ));
}

#[test]
fn test_compound_keys_on_meaningful_command() {
    // read-only prefix dropped
    assert_eq!(
        CommandChainPattern.analyze("ls && cargo build").pattern,
        "cargo build:*"
    );
    // cd prefix dropped
    assert_eq!(
        CommandChainPattern.analyze("cd foo && npm test").pattern,
        "npm test:*"
    );
}

#[test]
fn test_compound_patterns_round_trip_through_matcher() {
    for (pat, cmd) in [
        (
            &PipelinePattern as &dyn BashCommandPattern,
            "cd web && npx playwright test x | grep y",
        ),
        (&CommandChainPattern, "ls && cargo build --release"),
        (&CommandChainPattern, "cd foo && npm test -- --watch"),
        (&PipelinePattern, "cat a | grep b | wc -l"),
        (&CommandChainPattern, "cargo build && docker compose up"),
    ] {
        let result = pat.analyze(cmd);
        assert!(
            pat.matches_pattern(&result.pattern, cmd),
            "generated pattern `{}` failed to re-match `{cmd}`",
            result.pattern
        );
    }
}

#[test]
fn test_pipeline_two_meaningful_commands_clean_wording() {
    let pattern = CommandChainPattern;
    let result = pattern.analyze("cargo build && docker compose up");
    assert_eq!(result.pattern, "cargo build:*&docker compose:*");
    assert!(result.persistent_message.contains("\"cargo build\""));
    assert!(result.persistent_message.contains("\"docker compose\""));
    assert!(!result.persistent_message.contains("combination"));
    assert!(pattern.matches_pattern(&result.pattern, "cargo build && docker compose up"));
}

#[test]
fn test_command_chain_pattern_matches() {
    let pattern = CommandChainPattern;
    assert!(pattern.matches("cargo build && cargo test"));
    assert!(pattern.matches("ls || echo failed"));
    assert!(pattern.matches("ls; pwd; echo done"));
    assert!(!pattern.matches("ls -la"));
}

#[test]
fn test_command_chain_pattern_same_command() {
    let pattern = CommandChainPattern;
    let result = pattern.analyze("cargo build && cargo test");
    assert_eq!(result.pattern, "cargo:*");
}

#[test]
fn test_single_command_pattern_whitelisted() {
    let pattern = SingleCommandPattern;
    assert!(pattern.matches("ls -la"));

    let result = pattern.analyze("ls -la");
    assert_eq!(result.pattern, "ls -la:*");
    assert!(result.persistent_message.contains("ls"));
    assert!(result.safe);
}

#[test]
fn test_single_command_pattern_not_whitelisted() {
    let pattern = SingleCommandPattern;
    let result = pattern.analyze("cargo build");
    assert_eq!(result.pattern, "cargo build:*");
    assert!(!result.safe);
}

#[test]
fn command_pattern_test_whitelist_coverage() {
    let safe_commands = vec![
        "ls", "pwd", "cat", "head", "tail", "find", "grep", "wc", "sort", "echo", "which",
        "date",
    ];

    for cmd in safe_commands {
        assert!(SingleCommandPattern::is_whitelisted(cmd, cmd));
    }
}

#[test]
fn test_non_whitelisted_commands() {
    let unsafe_commands = vec!["cargo", "sed", "rm", "xargs", "docker"];

    for cmd in unsafe_commands {
        assert!(!SingleCommandPattern::is_whitelisted(cmd, cmd));
    }
}

#[test]
fn test_pattern_priorities() {
    assert!(HeredocPattern.priority() > PipelinePattern.priority());
    assert!(PipelinePattern.priority() > CommandChainPattern.priority());
    assert!(CommandChainPattern.priority() > SingleCommandPattern.priority());
}

// ===========================================
// SubshellPattern matches_pattern tests
// ===========================================

#[test]
fn test_subshell_matches_pattern_wildcard() {
    let pattern = SubshellPattern;
    // Subshell patterns only match wildcard "*"
    assert!(pattern.matches_pattern("*", "echo $(whoami)"));
    assert!(pattern.matches_pattern("*", "cat `pwd`"));
    assert!(!pattern.matches_pattern("*", "echo hello")); // No subshell
}

#[test]
fn test_subshell_matches_pattern_non_wildcard() {
    let pattern = SubshellPattern;
    // Non-wildcard patterns should not match
    assert!(!pattern.matches_pattern("echo:*", "echo $(whoami)"));
    assert!(!pattern.matches_pattern("cat:*", "cat `pwd`"));
}

// ===========================================
// RedirectionPattern matches_pattern tests
// ===========================================

#[test]
fn test_redirection_matches_pattern_basic() {
    let pattern = RedirectionPattern;
    assert!(pattern.matches_pattern("echo:>", "echo test > file.txt"));
    assert!(pattern.matches_pattern("echo:>", "echo test >> file.txt"));
    assert!(pattern.matches_pattern("cat:>", "cat input.txt > output.txt"));
}

#[test]
fn test_redirection_matches_pattern_no_redirection() {
    let pattern = RedirectionPattern;
    assert!(!pattern.matches_pattern("echo:>", "echo test"));
    assert!(!pattern.matches_pattern("cat:>", "cat file.txt"));
}

#[test]
fn test_redirection_matches_pattern_wrong_command() {
    let pattern = RedirectionPattern;
    assert!(!pattern.matches_pattern("cat:>", "echo test > file.txt"));
    assert!(!pattern.matches_pattern("echo:>", "cat input > output"));
}

#[test]
fn test_redirection_matches_pattern_invalid_pattern() {
    let pattern = RedirectionPattern;
    // Pattern must end with ":>"
    assert!(!pattern.matches_pattern("echo", "echo test > file.txt"));
    assert!(!pattern.matches_pattern("echo:*", "echo test > file.txt"));
}

// ===========================================
// HeredocPattern matches_pattern tests
// ===========================================

#[test]
fn test_heredoc_matches_pattern_specific_command() {
    let pattern = HeredocPattern;
    assert!(pattern.matches_pattern("cat:<<", "cat <<EOF\ntest\nEOF"));
    assert!(pattern.matches_pattern("cat:<<", "cat <<'EOF'\ntest\nEOF"));
    assert!(pattern.matches_pattern("mysql:<<", "mysql -u root <<EOF\nSELECT 1;\nEOF"));
}

#[test]
fn test_heredoc_matches_pattern_wildcard() {
    let pattern = HeredocPattern;
    assert!(pattern.matches_pattern("*:<<", "cat <<EOF\ntest\nEOF"));
    assert!(pattern.matches_pattern("*:<<", "mysql <<EOF\nquery\nEOF"));
}

#[test]
fn test_heredoc_matches_pattern_no_heredoc() {
    let pattern = HeredocPattern;
    assert!(!pattern.matches_pattern("cat:<<", "cat file.txt"));
    assert!(!pattern.matches_pattern("*:<<", "cat file.txt"));
}

#[test]
fn test_heredoc_matches_pattern_wrong_command() {
    let pattern = HeredocPattern;
    assert!(!pattern.matches_pattern("cat:<<", "grep <<EOF\npattern\nEOF"));
    assert!(!pattern.matches_pattern("mysql:<<", "cat <<EOF\ntest\nEOF"));
}

#[test]
fn test_heredoc_matches_pattern_word_boundary() {
    let pattern = HeredocPattern;
    // "cat" should not match "catch" or "catalog"
    assert!(!pattern.matches_pattern("cat:<<", "catch <<EOF\ntest\nEOF"));
    assert!(pattern.matches_pattern("cat:<<", "cat <<EOF\ntest\nEOF"));
}

// ===========================================
// PipelinePattern matches_pattern tests
// ===========================================

#[test]
fn test_pipeline_matches_pattern_all_commands_present() {
    let pattern = PipelinePattern;
    assert!(pattern.matches_pattern("cat:*|grep:*|wc:*", "cat file | grep error | wc -l"));
    assert!(pattern.matches_pattern("cat:*|grep:*", "cat file | grep pattern"));
}

#[test]
fn test_pipeline_matches_pattern_subset_is_allowed() {
    let pattern = PipelinePattern;
    // A command using fewer commands than the rule trusts is within trust.
    assert!(pattern.matches_pattern("cat:*|grep:*|wc:*", "cat file | wc -l"));
    assert!(pattern.matches_pattern("cat:*|grep:*", "cat file | grep x"));
}

#[test]
fn test_pipeline_matches_pattern_uncovered_command_rejected() {
    let pattern = PipelinePattern;
    // `rm` is meaningful and not in the trusted set → must NOT match.
    assert!(!pattern.matches_pattern("cat:*|grep:*", "cat file | grep x | rm -rf y"));
}

#[test]
fn test_pipeline_matches_pattern_order_independent() {
    let pattern = PipelinePattern;
    // Order in the command doesn't need to match order in pattern
    assert!(pattern.matches_pattern("cat:*|grep:*|wc:*", "wc -l | cat file | grep error"));
}

#[test]
fn test_pipeline_matches_pattern_non_pipe_pattern() {
    let pattern = PipelinePattern;
    // Pattern without pipe should not match
    assert!(!pattern.matches_pattern("cat:*", "cat file | grep error"));
    assert!(!pattern.matches_pattern("grep:*", "cat file | grep error"));
}

#[test]
fn test_pipeline_matches_pattern_with_spaces() {
    let pattern = PipelinePattern;
    assert!(pattern.matches_pattern("cat:* | grep:*", "cat file | grep pattern"));
}

// ===========================================
// CommandChainPattern matches_pattern tests
// ===========================================

#[test]
fn test_command_chain_matches_pattern_prefix() {
    let pattern = CommandChainPattern;
    assert!(pattern.matches_pattern("cargo:*", "cargo build && cargo test"));
    assert!(pattern.matches_pattern("git:*", "git add . && git commit -m 'msg'"));
}

#[test]
fn test_command_chain_matches_pattern_wildcard() {
    let pattern = CommandChainPattern;
    assert!(pattern.matches_pattern("*", "cargo build && npm install"));
    assert!(pattern.matches_pattern("*", "ls; pwd; echo done"));
}

#[test]
fn test_command_chain_matches_pattern_word_boundary() {
    let pattern = CommandChainPattern;
    // "cargo" should not match "cargoship"
    assert!(!pattern.matches_pattern("cargo:*", "cargoship && test"));
    assert!(pattern.matches_pattern("cargo:*", "cargo build"));
}

#[test]
fn test_command_chain_matches_pattern_with_args() {
    let pattern = CommandChainPattern;
    assert!(pattern.matches_pattern("cargo:*", "cargo build --release && cargo test"));
}

// ===========================================
// SingleCommandPattern matches_pattern tests
// ===========================================

#[test]
fn test_single_command_matches_pattern_prefix() {
    let pattern = SingleCommandPattern;
    assert!(pattern.matches_pattern("cargo:*", "cargo build"));
    assert!(pattern.matches_pattern("cargo:*", "cargo test --release"));
    assert!(pattern.matches_pattern("ls:*", "ls -la"));
}

#[test]
fn test_single_command_matches_pattern_exact() {
    let pattern = SingleCommandPattern;
    assert!(pattern.matches_pattern("echo hello", "echo hello"));
    assert!(!pattern.matches_pattern("echo hello", "echo world"));
}

#[test]
fn test_single_command_matches_pattern_word_boundary() {
    let pattern = SingleCommandPattern;
    // "cargo" should not match "cargoship"
    assert!(!pattern.matches_pattern("cargo:*", "cargoship"));
    assert!(!pattern.matches_pattern("ls:*", "lsof"));
    assert!(!pattern.matches_pattern("cat:*", "catch"));
}

#[test]
fn test_single_command_matches_pattern_empty_args() {
    let pattern = SingleCommandPattern;
    assert!(pattern.matches_pattern("ls:*", "ls"));
    assert!(pattern.matches_pattern("pwd:*", "pwd"));
}

/// Regression: an env-var prefix used to break re-matching. The pattern is
/// generated from the real command (`cargo run`), so the stored rule must
/// keep matching the same invocation even with a `VAR=val` prefix —
/// otherwise the identical command prompts again every time.
#[test]
fn test_single_command_matches_pattern_ignores_env_prefix() {
    let pattern = SingleCommandPattern;
    assert!(pattern.matches_pattern("cargo run:*", "RUST_LOG=debug cargo run"));
    assert!(pattern.matches_pattern("cargo:*", "RUST_LOG=debug cargo run"));
    assert!(pattern.matches_pattern("make:*", "FOO=bar make build"));
    // A different command behind the env prefix must still NOT match.
    assert!(!pattern.matches_pattern("cargo run:*", "RUST_LOG=debug cargo test"));
}

/// The descriptor a command produces must re-match the command it came
/// from — a stored "trust project" rule is worthless if it can't.
#[test]
fn test_analyze_pattern_round_trips_through_matcher() {
    let pattern = SingleCommandPattern;
    for cmd in [
        "cargo build",
        "RUST_LOG=debug cargo run",
        "git status",
        "ls -la",
    ] {
        let result = pattern.analyze(cmd);
        assert!(
            pattern.matches_pattern(&result.pattern, cmd),
            "generated pattern `{}` failed to re-match `{cmd}`",
            result.pattern
        );
    }
}

#[test]
fn test_single_command_should_not_match_redirections() {
    let pattern = SingleCommandPattern;
    // A simple "echo:*" permission should NOT match commands with redirection
    assert!(
        !pattern.matches_pattern("echo:*", "echo test > file.txt"),
        "echo:* should not match redirection commands"
    );
    assert!(
        !pattern.matches_pattern("cat:*", "cat file > output.txt"),
        "cat:* should not match redirection commands"
    );
}

#[test]
fn test_single_command_should_not_match_chains() {
    let pattern = SingleCommandPattern;
    // A simple "echo:*" permission should NOT match command chains
    assert!(
        !pattern.matches_pattern("echo:*", "echo hello && rm -rf /"),
        "echo:* should not match command chains"
    );
    assert!(
        !pattern.matches_pattern("ls:*", "ls; rm -rf /"),
        "ls:* should not match command chains"
    );
}

#[test]
fn test_single_command_should_not_match_pipes() {
    let pattern = SingleCommandPattern;
    // A simple "cat:*" permission should NOT match pipelines
    assert!(
        !pattern.matches_pattern("cat:*", "cat file | rm -rf /"),
        "cat:* should not match pipelines"
    );
}

#[test]
fn test_single_command_should_not_match_subshells() {
    let pattern = SingleCommandPattern;
    // A simple "echo:*" permission should NOT match subshell commands
    assert!(
        !pattern.matches_pattern("echo:*", "echo $(rm -rf /)"),
        "echo:* should not match subshell commands"
    );
}

// ===========================================
// RedirectionPattern analyze tests
// ===========================================

#[test]
fn test_redirection_pattern_analyze() {
    let pattern = RedirectionPattern;
    let result = pattern.analyze("echo test > file.txt");
    assert_eq!(result.pattern, "echo:>");
    assert!(result.persistent_message.contains("redirection"));
    assert!(!result.safe);
}

#[test]
fn test_redirection_pattern_matches_basic() {
    let pattern = RedirectionPattern;
    assert!(pattern.matches("echo test > file.txt"));
    assert!(pattern.matches("cat < input.txt"));
    assert!(!pattern.matches("cat <<EOF")); // Heredoc, not simple redirection
    assert!(!pattern.matches("echo hello"));
}

// ===========================================
// Integration tests with registry
// ===========================================

#[test]
fn test_registry_matches_pattern_redirection() {
    let registry = BashCommandPatternRegistry::new();

    assert!(registry.matches_pattern("echo:>", "echo test > file.txt"));
    assert!(!registry.matches_pattern("echo:>", "echo test"));
}

#[test]
fn test_registry_matches_pattern_heredoc() {
    let registry = BashCommandPatternRegistry::new();

    assert!(registry.matches_pattern("cat:<<", "cat <<EOF\ntest\nEOF"));
    assert!(registry.matches_pattern("*:<<", "mysql <<EOF\nquery\nEOF"));
}

#[test]
fn test_registry_matches_pattern_pipeline() {
    let registry = BashCommandPatternRegistry::new();

    assert!(registry.matches_pattern("cat:*|grep:*", "cat file | grep pattern"));
    // Subset of the trusted set is fine; an uncovered meaningful command is not.
    assert!(registry.matches_pattern("cat:*|grep:*|wc:*", "cat file | grep pattern"));
    assert!(!registry.matches_pattern("cat:*|grep:*", "cat file | grep p | rm x"));
}

#[test]
fn test_registry_matches_pattern_single_command() {
    let registry = BashCommandPatternRegistry::new();

    assert!(registry.matches_pattern("cargo:*", "cargo build"));
    assert!(registry.matches_pattern("cargo:*", "cargo test --release"));
    assert!(!registry.matches_pattern("cargo:*", "npm install"));
}

#[test]
fn compound_rule_keeps_matching_when_prefixes_are_added() {
    let command = "cargo build && git status";
    assert!(compound_matches("cargo:*|git:*", command));
    assert!(compound_matches("cargo:*|git:*|npm:*", command));
    assert!(compound_matches("cargo:*|git:*|", command));
    assert!(!compound_matches("cargo:*", command));
}

#[test]
fn registry_rule_for_a_simple_command_matches_it_again() {
    let registry = BashCommandPatternRegistry::new();
    for command in ["git status", "cargo build --release", "ls -la src"] {
        let analysis = registry.analyze_command(command);
        assert!(registry.matches_pattern(&analysis.pattern, command), "{}", command);
    }
    let analysis = registry.analyze_command("cat notes.txt");
    assert_eq!(analysis.pattern, "cat notes.txt:*");
}
