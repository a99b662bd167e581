use hoosh::tools::grep::{GrepArgs, GrepResult, GrepTool, Match, OutputMode};
use std::path::PathBuf;

fn tool() -> GrepTool {
    GrepTool::with_working_directory(PathBuf::from("."))
}

fn search(pattern: &str, path: Option<&str>) -> GrepArgs {
    let mut a = args_with(None, None, None, None);
    a.pattern = pattern.to_string();
    a.path = path.map(|p| p.to_string());
    a
}

fn args_with(
    output_mode: Option<&str>,
    case_insensitive: Option<bool>,
    line_numbers: Option<bool>,
    multiline: Option<bool>,
) -> GrepArgs {
    GrepArgs {
        pattern: "test".to_string(),
        path: None,
        output_mode: output_mode.map(|s| s.to_string()),
        glob: None,
        file_type: None,
        case_insensitive,
        line_numbers,
        after_context: None,
        before_context: None,
        context: None,
        multiline,
        head_limit: None,
        offset: None,
    }
}

#[test]
fn test_grep_tool_name() {
    let tool = tool();
    assert_eq!(tool.name(), "grep");
}

#[test]
fn test_grep_tool_display_name() {
    let tool = tool();
    assert_eq!(tool.display_name(), "Grep");
}

#[test]
fn test_grep_tool_description() {
    let tool = tool();
    assert!(!tool.description().is_empty());
}

#[test]
fn test_grep_args_output_mode() {
    let args = args_with(Some("content"), None, None, None);

    match args.get_output_mode() {
        OutputMode::Content => (),
        _ => panic!("Expected Content output mode"),
    }
}

#[test]
fn test_grep_args_default_output_mode() {
    let args = args_with(None, None, None, None);

    match args.get_output_mode() {
        OutputMode::FilesWithMatches => (),
        _ => panic!("Expected FilesWithMatches output mode"),
    }
}

#[test]
fn grep_test_format_call_display() {
    let tool = tool();
    let args = search("test_pattern", Some("src/main.rs"));

    let display = tool.format_call_display(Some(&args));
    assert!(display.contains("test_pattern"));
    assert!(display.contains("src/main.rs"));
}

#[test]
fn grep_test_format_call_display_default_path() {
    let tool = tool();
    let args = search("test_pattern", None);

    let display = tool.format_call_display(Some(&args));
    assert!(display.contains("test_pattern"));
    assert!(display.contains("."));
}

#[test]
fn grep_test_result_summary() {
    let tool = tool();
    let result = GrepResult {
        matches: vec![Match {
            path: "test.rs".to_string(),
            line_number: Some(1),
            content: Some("test".to_string()),
            count: None,
        }],
        total_count: 1,
        truncated: false,
    };

    let summary = tool.result_summary(Some(&result));
    assert!(summary.contains("1"));
    assert!(summary.contains("match"));
}

#[test]
fn test_result_summary_truncated() {
    let tool = tool();
    let result = GrepResult { matches: vec![], total_count: 100, truncated: true };

    let summary = tool.result_summary(Some(&result));
    assert!(summary.contains("truncated"));
}

#[test]
fn test_grep_permission_descriptor() {
    let tool = tool();
    let perm = tool.describe_permission(Some("test.rs"));

    assert_eq!(perm.kind(), "grep");
    assert!(perm.is_read_only());
    assert!(!perm.is_destructive());
}

#[test]
fn test_grep_case_insensitive_flag() {
    let args = args_with(None, Some(true), None, None);
    assert!(args.is_case_insensitive());
}

#[test]
fn test_grep_multiline_enabled() {
    let args = args_with(None, None, None, Some(true));
    assert!(args.multiline_enabled());
}

#[test]
fn test_grep_line_numbers_default() {
    let args = args_with(None, None, None, None);
    assert!(args.should_show_line_numbers());
}

#[test]
fn test_grep_line_numbers_explicit_false() {
    let args = args_with(None, None, Some(false), None);
    assert!(!args.should_show_line_numbers());
}

#[test]
fn grep_call_display_exact_and_unparsed() {
    let tool = tool();
    assert_eq!(tool.format_call_display(Some(&search("fn main", Some("src")))), "Grep(fn main, src)");
    assert_eq!(tool.format_call_display(Some(&search("fn main", None))), "Grep(fn main, .)");
    assert_eq!(tool.format_call_display(None), "Grep(...)");
}
