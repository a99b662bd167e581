use hoosh::tools::error::ToolError;
use hoosh::tools::file_ops::common::{
    access_decision, checked_path, is_plainly_relative, listing_target, path_choice, resolve_path, Access,
};
use hoosh::tools::file_ops::edit_file::EditFileArgs;
use hoosh::tools::file_ops::list_directory::{DirectoryEntry, ListDirectoryArgs};
use hoosh::tools::file_ops::read_file::ReadFileArgs;
use hoosh::tools::file_ops::write_file::WriteFileArgs;
use hoosh::tools::file_ops::{EditFileTool, ListDirectoryTool, ReadFileTool, WriteFileTool};
use hoosh::tools::file_ops::edit_preview::{generate_diff, render_diff, ChangeKind, DiffLine, TextStyle};
use std::path::{Path, PathBuf};

fn invalid_message(r: Result<String, ToolError>) -> String {
    match r {
        Err(ToolError::InvalidArguments { tool, message }) => {
            assert_eq!(tool, "read_file");
            message
        }
        _ => panic!("expected an invalid-arguments error"),
    }
}

fn edit_failure(r: Result<(String, usize), ToolError>) -> String {
    match r {
        Err(ToolError::EditFailed { message }) => message,
        _ => panic!("expected an edit error"),
    }
}

#[test]
fn read_selects_line_ranges() {
    let content = "one\ntwo\r\nthree\nfour\n";
    assert_eq!(ReadFileTool::select_lines(content, Some(2), Some(3)).ok().unwrap(), "two\nthree");
    assert_eq!(ReadFileTool::select_lines(content, Some(3), None).ok().unwrap(), "three\nfour");
    assert_eq!(ReadFileTool::select_lines(content, None, Some(1)).ok().unwrap(), content);
    assert_eq!(
        invalid_message(ReadFileTool::select_lines(content, Some(0), None)),
        "Invalid start_line: 0 (file has 4 lines)"
    );
    assert_eq!(
        invalid_message(ReadFileTool::select_lines(content, Some(1), Some(9))),
        "Invalid end_line: 9 (file has 4 lines)"
    );
    assert_eq!(
        invalid_message(ReadFileTool::select_lines(content, Some(3), Some(2))),
        "start_line (3) cannot be greater than end_line (2)"
    );
}

#[test]
fn read_summary_and_display() {
    let tool = ReadFileTool::with_working_directory(PathBuf::from("."));
    assert_eq!(tool.result_summary("a\nb\nc"), "Read 3 lines");
    assert_eq!(ReadFileTool::call_display(Some("src/main.rs")), "Read(src/main.rs)");
    assert_eq!(tool.format_call_display(None), "Read(?)");
    let args = ReadFileArgs { path: "notes.txt".to_string(), start_line: Some(2), end_line: None };
    assert_eq!(tool.format_call_display(Some(&args)), "Read(notes.txt)");
}

#[test]
fn list_directory_report() {
    let entries = vec![
        DirectoryEntry { name: "zeta.txt".to_string(), is_file: true, is_dir: false, size: Some(12) },
        DirectoryEntry { name: "src".to_string(), is_file: false, is_dir: true, size: None },
        DirectoryEntry { name: "alpha.rs".to_string(), is_file: true, is_dir: false, size: Some(0) },
        DirectoryEntry { name: "docs".to_string(), is_file: false, is_dir: true, size: None },
    ];
    let text = ListDirectoryTool::format_listing("/p", entries);
    assert_eq!(
        text,
        "Contents of /p:\n\nDirectories:\n  📁 docs/\n  📁 src/\n\nFiles:\n  📄 alpha.rs (0 bytes)\n  📄 zeta.txt (12 bytes)\n"
    );
    let tool = ListDirectoryTool::with_working_directory(PathBuf::from("."));
    assert_eq!(tool.result_summary(&text), "Found 2 files, 2 directories");
    let empty = ListDirectoryTool::format_listing("/e", vec![]);
    assert_eq!(empty, "Contents of /e:\n  (empty directory)\n");
    assert_eq!(tool.result_summary(&empty), "Empty directory");
    assert_eq!(tool.result_summary("whatever"), "Listed directory contents");
}

#[test]
fn list_directory_hidden_and_display() {
    assert!(!ListDirectoryTool::shows_entry(".git", false));
    assert!(ListDirectoryTool::shows_entry(".git", true));
    assert!(ListDirectoryTool::shows_entry("src", false));
    assert_eq!(ListDirectoryTool::call_display(""), "List(.)");
    assert_eq!(ListDirectoryTool::call_display("."), "List(.)");
    assert_eq!(ListDirectoryTool::call_display("src"), "List(src)");
}

#[test]
fn write_report_and_summary() {
    let report = WriteFileTool::report("héllo", "/tmp/f.txt");
    assert_eq!(report, "Successfully wrote 6 bytes to /tmp/f.txt");
    let tool = WriteFileTool::with_working_directory(PathBuf::from("."));
    assert_eq!(tool.result_summary(&report), "Wrote 6 bytes");
    assert_eq!(tool.result_summary(&WriteFileTool::report("", "x")), "Created empty file");
    assert_eq!(tool.result_summary("done"), "File written successfully");
    let p = tool.describe_permission(Some("a.txt"));
    assert!(p.is_destructive());
    assert!(!p.is_read_only());
}

#[test]
fn edit_replaces_unique_or_all() {
    let (out, n) = EditFileTool::replace_in("Hello, World!\nThis is a test.", "World", "Rust", false)
        .ok()
        .unwrap();
    assert_eq!(out, "Hello, Rust!\nThis is a test.");
    assert_eq!(n, 1);
    let (out, n) = EditFileTool::replace_in("a-a-a", "a", "bb", true).ok().unwrap();
    assert_eq!(out, "bb-bb-bb");
    assert_eq!(n, 3);
    let (out, n) = EditFileTool::replace_in("aaa", "aa", "x", true).ok().unwrap();
    assert_eq!(out, "xa");
    assert_eq!(n, 1);
    let (out, n) = EditFileTool::replace_in("ab", "", "-", true).ok().unwrap();
    assert_eq!(out, "-a-b-");
    assert_eq!(n, 3);
}

#[test]
fn edit_refusals() {
    assert_eq!(
        edit_failure(EditFileTool::replace_in("x x", "x", "y", false)),
        "String appears 2 times in file. Use replace_all=true to replace all occurrences, or provide more context to make the match unique."
    );
    assert_eq!(
        edit_failure(EditFileTool::replace_in("abc", "zzz", "y", false)),
        "String not found in file: 'zzz'"
    );
    let long = "q".repeat(60);
    assert_eq!(
        edit_failure(EditFileTool::replace_in("abc", &long, "y", true)),
        format!("String not found in file: '{}...'", "q".repeat(50))
    );
    match EditFileTool::check_strings("same", "same") {
        Err(ToolError::EditFailed { message }) => {
            assert_eq!(message, "old_string and new_string must be different")
        }
        _ => panic!("expected a refusal"),
    }
    assert!(EditFileTool::check_strings("a", "b").is_ok());
}

#[test]
fn edit_report_and_summary() {
    let tool = EditFileTool::with_working_directory(PathBuf::from("."));
    let one = EditFileTool::report("/t/a.txt", 1);
    assert_eq!(one, "Successfully edited /t/a.txt (replaced 1 occurrence)");
    assert_eq!(tool.result_summary(&one), "Replaced 1 occurrence");
    let many = EditFileTool::report("/t/a.txt", 4);
    assert_eq!(tool.result_summary(&many), "Replaced 4 occurrences");
    assert_eq!(tool.result_summary("ok"), "File edited successfully");
}

fn plain(pieces: &[hoosh::tools::file_ops::edit_preview::StyledText]) -> String {
    pieces.iter().map(|p| p.text.as_str()).collect()
}

#[test]
fn edit_preview_numbers_changed_lines() {
    let pieces = generate_diff("a\nb\nc\n", "b", "B", false);
    assert_eq!(
        plain(&pieces),
        "Will replace 1 occurrence:\n\n     1    1   a\n     2      - b\n          2 + B\n     3    3   c\n"
    );
    assert_eq!(pieces[0].style, TextStyle::BoldCyan);
    assert_eq!(pieces[4].style, TextStyle::BrightRed);
    assert_eq!(pieces[6].style, TextStyle::Green);
}

#[test]
fn edit_preview_skips_far_lines() {
    let content: String = (1..=20).map(|i| format!("line{}\n", i)).collect();
    let text = plain(&generate_diff(&content, "line15\n", "x\n", false));
    assert!(text.starts_with("Will replace 1 occurrence:\n\n    10   10   line10\n"));
    assert!(!text.contains("line9\n"));
    assert!(text.contains("    15      - line15\n"));
    assert!(text.contains("         15 + x\n"));
    assert!(text.ends_with("    20   20   line20\n"));
}

#[test]
fn edit_preview_refusals() {
    assert_eq!(plain(&generate_diff("abc", "z", "y", false)), "No matches found for:\nz");
    assert_eq!(
        plain(&generate_diff("x x x", "x", "y", false)),
        "Found 3 matches (use replace_all=true to replace all)"
    );
    assert!(plain(&generate_diff("x x x\n", "x", "y", true)).starts_with("Will replace 3 occurrences:"));
}

#[test]
fn write_previews() {
    let tool = WriteFileTool::with_working_directory(PathBuf::from("."));
    let text = plain(&tool.generate_new_file_preview("a\nb", "n.txt"));
    assert_eq!(
        text,
        "Creating new file: n.txt\n\nSize: 2 lines, 3 bytes\n\nContent:\n     1 + a\n     2 + b\n"
    );
    let long: String = (1..=22).map(|i| format!("{}\n", i)).collect();
    let text = plain(&tool.generate_new_file_preview(&long, "l.txt"));
    assert!(text.contains("    20 + 20\n       ... (2 more lines)\n"));
    let diff = plain(&tool.generate_diff("old", "new1\nnew2", "f.txt"));
    assert_eq!(
        diff,
        "Overwriting file: f.txt\n\nOld: 1 lines, 3 bytes\nNew: 2 lines, 9 bytes\n\nOld content (first lines):\n     1 - old\n\nNew content (first lines):\n     1 + new1\n     2 + new2\n"
    );
    let diff = plain(&tool.generate_diff("", "x", "f.txt"));
    assert!(!diff.contains("Old content"));
}

#[test]
fn write_edit_list_call_displays() {
    let write = WriteFileTool::with_working_directory(PathBuf::from("."));
    let w = WriteFileArgs { path: "out.txt".to_string(), content: None, create_dirs: false };
    assert_eq!(write.format_call_display(Some(&w)), "Write(out.txt)");
    assert_eq!(write.format_call_display(None), "Write(?)");
    let edit = EditFileTool::with_working_directory(PathBuf::from("."));
    let e = EditFileArgs {
        path: "lib.rs".to_string(),
        old_string: "a".to_string(),
        new_string: "b".to_string(),
        replace_all: false,
    };
    assert_eq!(edit.format_call_display(Some(&e)), "Edit(lib.rs)");
    assert_eq!(edit.format_call_display(None), "Edit(?)");
    let list = ListDirectoryTool::with_working_directory(PathBuf::from("."));
    let here = ListDirectoryArgs { path: String::new(), show_hidden: false };
    let dot = ListDirectoryArgs { path: ".".to_string(), show_hidden: true };
    let src = ListDirectoryArgs { path: "src".to_string(), show_hidden: false };
    assert_eq!(list.format_call_display(Some(&here)), "List(.)");
    assert_eq!(list.format_call_display(Some(&dot)), "List(.)");
    assert_eq!(list.format_call_display(Some(&src)), "List(src)");
    assert_eq!(list.format_call_display(None), "List(?)");
}

#[test]
fn resolve_path_absolute_and_relative() {
    let work = Path::new("/work");
    assert_eq!(resolve_path("/etc/hosts", work).build(), PathBuf::from("/etc/hosts"));
    assert_eq!(resolve_path("src/main.rs", work).build(), PathBuf::from("/work/src/main.rs"));
    assert_eq!(path_choice(true, "a/b", work).build(), PathBuf::from("a/b"));
    assert_eq!(path_choice(false, "a/b", work).build(), PathBuf::from("/work/a/b"));
}

fn line(kind: ChangeKind, text: &str) -> DiffLine {
    DiffLine { kind, text: text.to_string() }
}

#[test]
fn render_diff_from_given_lines() {
    let ch = vec![
        line(ChangeKind::Equal, "keep\n"),
        line(ChangeKind::Delete, "old  \n"),
        line(ChangeKind::Insert, "new\n"),
    ];
    let pieces = render_diff(2, &ch);
    assert_eq!(
        plain(&pieces),
        "Will replace 2 occurrences:\n\n     1    1   keep\n     2      - old\n          2 + new\n"
    );
    assert_eq!(pieces[2].style, TextStyle::Dimmed);
    let same = vec![line(ChangeKind::Equal, "a\n")];
    assert_eq!(plain(&render_diff(1, &same)), "Will replace 1 occurrence:\n\n");
}

fn denial(r: Result<hoosh::tools::file_ops::common::PathPlan, ToolError>) -> String {
    match r {
        Err(ToolError::SecurityViolation { message }) => message,
        _ => panic!("expected a refusal"),
    }
}

#[test]
fn paths_outside_the_working_directory_are_refused() {
    let work = Path::new("/work");
    assert_eq!(
        denial(checked_path("/etc/hosts", work, Access::Read)),
        "Access denied: cannot read files outside working directory"
    );
    assert_eq!(
        denial(checked_path("/etc/passwd", work, Access::Write)),
        "Access denied: cannot write files outside working directory"
    );
    let inside = checked_path("/work/notes/a.txt", work, Access::Write).ok().unwrap();
    assert_eq!(inside.build(), PathBuf::from("/work/notes/a.txt"));
    let relative = checked_path("src/main.rs", work, Access::Read).ok().unwrap();
    assert_eq!(relative.build(), PathBuf::from("/work/src/main.rs"));
    assert!(checked_path("/workshop/x", work, Access::Read).is_err());
    assert!(access_decision(path_choice(true, "/x", work), true, Access::Read).is_ok());
    assert_eq!(
        denial(access_decision(path_choice(true, "/x", work), false, Access::Read)),
        "Access denied: cannot read files outside working directory"
    );
}

#[test]
fn listing_target_falls_back_to_the_current_directory() {
    let work = Path::new("/work");
    assert_eq!(listing_target("", work).build(), PathBuf::from("/work/."));
    assert_eq!(listing_target("src", work).build(), PathBuf::from("/work/src"));
    assert_eq!(listing_target("/work/src", work).build(), PathBuf::from("/work/src"));
    assert_eq!(listing_target("/etc", work).build(), PathBuf::from("."));
}

#[test]
fn plainly_relative_texts() {
    assert!(is_plainly_relative(""));
    assert!(is_plainly_relative("src/main.rs"));
    assert!(is_plainly_relative("../up"));
    assert!(!is_plainly_relative("/etc"));
    assert!(!is_plainly_relative("\\server\\share"));
    assert!(!is_plainly_relative("C:\\temp"));
}
