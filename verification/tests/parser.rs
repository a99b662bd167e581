use hoosh::tools::bash::BashCommandParser;

#[test]
fn test_quote_protection() {
    // The old parser would fail here and see "grep" as a command
    let cmds =
        BashCommandParser::extract_base_commands("git commit -m 'Fixed bug | grep issue'");
    assert_eq!(cmds, vec!["git"]);
}

#[test]
fn test_env_vars() {
    // The old parser would fail here and think "RUST_LOG=debug" is the command
    let cmds = BashCommandParser::extract_base_commands("RUST_LOG=debug cargo run");
    assert_eq!(cmds, vec!["cargo"]);
}

#[test]
fn test_complex_chain() {
    let cmds = BashCommandParser::extract_base_commands(
        "cd /tmp && RUST_BACKTRACE=1 ./app | grep error",
    );
    assert_eq!(cmds, vec!["cd", "./app", "grep"]);
}

#[test]
fn extract_cd_targets_basic() {
    assert_eq!(
        BashCommandParser::extract_cd_targets("cd /tmp && ls"),
        vec!["/tmp"]
    );
    assert_eq!(
        BashCommandParser::extract_cd_targets("cd /tmp && cd /var"),
        vec!["/tmp", "/var"]
    );
    assert_eq!(
        BashCommandParser::extract_cd_targets("ls -la"),
        Vec::<String>::new()
    );
}

#[test]
fn extract_cd_targets_handles_no_arg_and_dash() {
    // `cd` alone → empty string sentinel ($HOME).
    assert_eq!(
        BashCommandParser::extract_cd_targets("cd"),
        vec![String::new()]
    );
    assert_eq!(BashCommandParser::extract_cd_targets("cd -"), vec!["-"]);
}

#[test]
fn extract_cd_targets_skips_flags() {
    // hypothetical `cd -P` — should still find the path
    assert_eq!(
        BashCommandParser::extract_cd_targets("cd -P /tmp"),
        vec!["/tmp"]
    );
}

#[test]
fn test_echo_cat_command() {
    let cmds = BashCommandParser::extract_base_commands(
        "echo \"Hello! This is a test message written using bash.\" > test_message.txt && cat test_message.txt ",
    );
    assert_eq!(cmds, vec!["echo", "cat"]);
}

/// Regression: shlex tokenizes `a|grep` as one token, so the old parser
/// missed everything after a space-less operator. The splitter must see it.
#[test]
fn extract_base_commands_handles_no_space_operators() {
    assert_eq!(
        BashCommandParser::extract_base_commands("cat a|grep b"),
        vec!["cat", "grep"]
    );
    assert_eq!(
        BashCommandParser::extract_base_commands("cargo build&&cargo test"),
        vec!["cargo"]
    );
    assert_eq!(
        BashCommandParser::extract_base_commands("ls;pwd;echo hi"),
        vec!["ls", "pwd", "echo"]
    );
}

#[test]
fn split_subcommands_spaced_and_unspaced() {
    assert_eq!(
        BashCommandParser::split_subcommands("a && b"),
        vec!["a", "b"]
    );
    assert_eq!(BashCommandParser::split_subcommands("a&&b"), vec!["a", "b"]);
    assert_eq!(BashCommandParser::split_subcommands("a|b"), vec!["a", "b"]);
    assert_eq!(BashCommandParser::split_subcommands("a;b"), vec!["a", "b"]);
}

#[test]
fn split_subcommands_or_does_not_create_empty_segment() {
    assert_eq!(
        BashCommandParser::split_subcommands("ls || echo failed"),
        vec!["ls", "echo failed"]
    );
}

#[test]
fn split_subcommands_respects_quotes() {
    assert_eq!(
        BashCommandParser::split_subcommands("echo \"a && b\""),
        vec!["echo \"a && b\""]
    );
    assert_eq!(
        BashCommandParser::split_subcommands("git commit -m 'x | y'"),
        vec!["git commit -m 'x | y'"]
    );
}

#[test]
fn split_subcommands_respects_subshell_and_backtick_nesting() {
    assert_eq!(
        BashCommandParser::split_subcommands("echo $(a | b)"),
        vec!["echo $(a | b)"]
    );
    assert_eq!(
        BashCommandParser::split_subcommands("echo `a | b`"),
        vec!["echo `a | b`"]
    );
}

#[test]
fn split_subcommands_keeps_redirection_in_segment() {
    assert_eq!(
        BashCommandParser::split_subcommands("npx test 2>&1 | grep y"),
        vec!["npx test 2>&1", "grep y"]
    );
}

#[test]
fn split_subcommands_screenshot_case() {
    assert_eq!(
        BashCommandParser::split_subcommands(
            "cd apps/web && npx playwright test x 2>&1 | grep -A 25 \"image uploads\""
        ),
        vec![
            "cd apps/web",
            "npx playwright test x 2>&1",
            "grep -A 25 \"image uploads\""
        ]
    );
}

#[test]
fn split_subcommands_trims_and_drops_empty() {
    assert_eq!(
        BashCommandParser::split_subcommands("  ls  ;  "),
        vec!["ls"]
    );
    assert!(BashCommandParser::split_subcommands("   ").is_empty());
}

#[test]
fn split_subcommands_ignores_heredoc_body() {
    // Only the command line is split; heredoc body is left out.
    assert_eq!(
        BashCommandParser::split_subcommands("cat <<EOF\nfoo | bar\nEOF"),
        vec!["cat <<EOF"]
    );
}

#[test]
fn lone_ampersand_does_not_split() {
    assert_eq!(BashCommandParser::split_subcommands("  sleep 5 &  "), vec!["sleep 5 &"]);
    assert_eq!(BashCommandParser::split_subcommands("a & b"), vec!["a & b"]);
    assert!(BashCommandParser::split_subcommands("   ").is_empty());
}
