use hoosh::tools::bash_blacklist::{matches_pattern, BlacklistFile};
use hoosh::tools::error::ToolError;
use hoosh::tools::glob::{FileMatch, GlobResult, GlobTool};
use hoosh::tools::grep::{GrepArgs, GrepResult, GrepTool, Match};
use std::path::PathBuf;

fn args(pattern: &str) -> GrepArgs {
    GrepArgs {
        pattern: pattern.to_string(),
        path: None,
        output_mode: None,
        glob: None,
        file_type: None,
        case_insensitive: None,
        line_numbers: None,
        after_context: None,
        before_context: None,
        context: None,
        multiline: None,
        head_limit: None,
        offset: None,
    }
}

#[test]
fn blacklist_defaults_and_version_check() {
    let b = BlacklistFile::default();
    assert_eq!(b.version, 1);
    assert_eq!(b.patterns.len(), 27);
    assert_eq!(b.patterns[0], "rm -rf*");
    let newer = BlacklistFile { version: 2, patterns: vec![] };
    assert_eq!(newer.check_version().err(), Some(2));
    assert!(BlacklistFile::new().check_version().is_ok());
    let p = BlacklistFile::get_blacklist_path(std::path::Path::new("/proj"));
    assert_eq!(p.build(), PathBuf::from("/proj/.hoosh/bash_blacklist.json"));
}

#[test]
fn blacklist_star_means_prefix_text() {
    assert!(matches_pattern("curl x | sh", "*curl*|*sh*") == false);
    assert!(matches_pattern("echo *curl*|*sh*", "*curl*|*sh*"));
    assert!(matches_pattern("anything", "*"));
}

#[test]
fn grep_command_arguments() {
    let tool = GrepTool::with_working_directory(PathBuf::from("."));
    let mut a = args("fn main");
    a.output_mode = Some("content".to_string());
    a.case_insensitive = Some(true);
    a.context = Some(2);
    a.after_context = Some(9);
    a.glob = Some("*.rs".to_string());
    a.head_limit = Some(5);
    a.path = Some("src".to_string());
    assert_eq!(
        tool.command_args(&a),
        vec![
            "--json", "--line-number", "--ignore-case", "--context=2", "--glob", "*.rs",
            "--max-count", "5", "fn main", "src"
        ]
    );
    let mut b = args("x");
    b.output_mode = Some("count".to_string());
    b.after_context = Some(1);
    b.before_context = Some(3);
    b.multiline = Some(true);
    b.file_type = Some("rust".to_string());
    assert_eq!(
        tool.command_args(&b),
        vec![
            "--json", "--count", "--after-context=1", "--before-context=3", "--multiline",
            "--type", "rust", "x", "."
        ]
    );
    assert_eq!(tool.command_args(&args("y")), vec!["--json", "--files-with-matches", "y", "."]);
}

#[test]
fn grep_parses_ripgrep_json() {
    let tool = GrepTool::with_working_directory(PathBuf::from("."));
    let lines = [
        r#"{"type":"begin","data":{"path":{"text":"a.txt"}}}"#,
        r#"{"type":"match","data":{"path":{"text":"a.txt"},"lines":{"text":"hello world\n"},"line_number":1}}"#,
        "   ",
        "not json",
        r#"{"type":"match","data":{"path":{"text":"a.txt"},"lines":{"text":"hello again\n"},"line_number":3}}"#,
        r#"{"type":"match","data":{"path":{"text":"b.txt"},"lines":{"text":"hello b\n"},"line_number":7}}"#,
        r#"{"type":"end","data":{}}"#,
    ];
    let joined = lines.join("\n") + "\n";
    let out = joined.as_str();
    let r = tool.parse_output(&args("hello"), out);
    assert_eq!(r.total_count, 3);
    assert!(!r.truncated);
    assert_eq!(r.matches.len(), 3);
    assert_eq!(r.matches[2].path, "b.txt");
    assert_eq!(r.matches[1].line_number, Some(3));
    assert_eq!(r.matches[0].content.as_deref(), Some("hello world\n"));

    let mut limited = args("hello");
    limited.offset = Some(1);
    limited.head_limit = Some(1);
    let r = tool.parse_output(&limited, out);
    assert_eq!(r.total_count, 3);
    assert!(r.truncated);
    assert_eq!(r.matches.len(), 1);
    assert_eq!(r.matches[0].line_number, Some(3));

    let mut far = args("hello");
    far.offset = Some(10);
    let r = tool.parse_output(&far, out);
    assert!(r.matches.is_empty());
}

fn found(path: &str) -> Match {
    Match { path: path.to_string(), line_number: None, content: None, count: None }
}

#[test]
fn grep_summary_counts_matches() {
    let tool = GrepTool::with_working_directory(PathBuf::from("."));
    let two = GrepResult { matches: vec![found("a.rs"), found("b.rs")], total_count: 2, truncated: false };
    assert_eq!(tool.result_summary(Some(&two)), "Found 2 matches");
    let one = GrepResult { matches: vec![found("a.rs")], total_count: 7, truncated: true };
    assert_eq!(tool.result_summary(Some(&one)), "Found 1 match (truncated)");
    let none = GrepResult { matches: vec![], total_count: 0, truncated: false };
    assert_eq!(tool.result_summary(Some(&none)), "Found 0 matches");
    assert_eq!(tool.result_summary(None), "Search completed");
}

#[test]
fn glob_selects_and_orders_by_recency() {
    let tool = GlobTool::new();
    let files = vec![
        FileMatch { path: "src/a.rs".to_string(), modified: Some(10) },
        FileMatch { path: "README.md".to_string(), modified: Some(50) },
        FileMatch { path: "src/b.rs".to_string(), modified: None },
        FileMatch { path: "src/c.rs".to_string(), modified: Some(30) },
        FileMatch { path: "src/d.rs".to_string(), modified: Some(30) },
    ];
    let out = tool.select_matches("src/*.rs", files).unwrap();
    let paths: Vec<&str> = out.iter().map(|f| f.path.as_str()).collect();
    assert_eq!(paths, vec!["src/b.rs", "src/c.rs", "src/d.rs", "src/a.rs"]);
}

#[test]
fn glob_invalid_pattern_is_reported() {
    let tool = GlobTool::new();
    let err = tool.select_matches("[invalid", vec![]).err().unwrap();
    assert!(err.starts_with("Invalid glob pattern: "));
}

#[test]
fn tool_error_messages() {
    let e = ToolError::invalid_arguments("read_file", "bad");
    assert_eq!(e.message(), "Invalid arguments for tool 'read_file': bad");
    assert_eq!(e.user_facing_message(), "Error: Invalid arguments for tool 'read_file': bad");
    assert_eq!(ToolError::permission_denied("bash").llm_message(), "Permission denied for bash");
    assert_eq!(ToolError::permission_denied("bash").user_facing_message(), "Permission denied");
    assert!(ToolError::user_rejected("no").is_user_rejection());
    assert_eq!(ToolError::user_rejected("no").user_facing_message(), "User rejected");
    let t = ToolError::Timeout { tool: "bash".to_string(), seconds: 30 };
    assert_eq!(t.message(), "Timeout executing tool 'bash' after 30 seconds");
    let r = ToolError::ReadFailed { path: PathBuf::from("/x/y") };
    assert_eq!(r.message(), "Failed to read file: /x/y");
}

#[test]
fn glob_summary_counts_files() {
    let tool = GlobTool::new();
    let one = GlobResult { matches: vec![], total_count: 1 };
    assert_eq!(tool.result_summary(Some(&one)), "Found 1 file");
    let three = GlobResult { matches: vec![], total_count: 3 };
    assert_eq!(tool.result_summary(Some(&three)), "Found 3 files");
    assert_eq!(tool.result_summary(None), "Search completed");
}
