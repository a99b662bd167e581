use hoosh::tools::glob::{FileMatch, GlobArgs, GlobResult, GlobTool};

fn glob_args(pattern: &str, path: Option<&str>) -> GlobArgs {
    GlobArgs { pattern: pattern.to_string(), path: path.map(|p| p.to_string()) }
}

#[test]
fn test_glob_tool_name() {
    let tool = GlobTool::new();
    assert_eq!(tool.name(), "glob");
}

#[test]
fn test_glob_tool_display_name() {
    let tool = GlobTool::new();
    assert_eq!(tool.display_name(), "Glob");
}

#[test]
fn test_glob_tool_description() {
    let tool = GlobTool::new();
    assert!(!tool.description().is_empty());
}

#[test]
fn glob_test_format_call_display() {
    let tool = GlobTool::new();
    let args = glob_args("**/*.rs", Some("src"));

    let display = tool.format_call_display(Some(&args));
    assert!(display.contains("**/*.rs"));
    assert!(display.contains("src"));
}

#[test]
fn glob_test_format_call_display_default_path() {
    let tool = GlobTool::new();
    let args = glob_args("**/*.rs", None);

    let display = tool.format_call_display(Some(&args));
    assert!(display.contains("**/*.rs"));
    assert!(display.contains("."));
}

#[test]
fn glob_test_result_summary() {
    let tool = GlobTool::new();
    let result = GlobResult {
        matches: vec![FileMatch { path: "test.rs".to_string(), modified: None }],
        total_count: 1,
    };

    let summary = tool.result_summary(Some(&result));
    assert!(summary.contains("1"));
    assert!(summary.contains("file"));
    assert!(!summary.contains("files"));
}

#[test]
fn test_result_summary_multiple() {
    let tool = GlobTool::new();
    let result = GlobResult {
        matches: vec![
            FileMatch { path: "test1.rs".to_string(), modified: None },
            FileMatch { path: "test2.rs".to_string(), modified: None },
        ],
        total_count: 2,
    };

    let summary = tool.result_summary(Some(&result));
    assert!(summary.contains("2"));
    assert!(summary.contains("files"));
}

#[test]
fn test_glob_permission_descriptor() {
    let tool = GlobTool::new();
    let perm = tool.describe_permission(Some("*.rs"));

    assert_eq!(perm.kind(), "glob");
    assert!(perm.is_read_only());
    assert!(!perm.is_destructive());
}

#[test]
fn glob_call_display_exact_and_unparsed() {
    let tool = GlobTool::new();
    assert_eq!(tool.format_call_display(Some(&glob_args("*.md", Some("docs")))), "Glob(*.md, docs)");
    assert_eq!(tool.format_call_display(Some(&glob_args("*.md", None))), "Glob(*.md, .)");
    assert_eq!(tool.format_call_display(None), "Glob(...)");
}
