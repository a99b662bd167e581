use hoosh::tools::permissions::ToolPermissionDescriptor;
use hoosh::tui::app_state::{PermissionOption, ToolPermissionDialogState};
use hoosh::tui::components::permission_dialog::{permission_dialog_lines, DialogSpan, DialogStyle};
use std::path::PathBuf;

fn dialog(preview: Option<&str>, selected_index: usize) -> ToolPermissionDialogState {
    ToolPermissionDialogState {
        descriptor: ToolPermissionDescriptor {
            kind: "bash".to_string(),
            target: "ls".to_string(),
            read_only: false,
            destructive: false,
            approval_title: None,
            approval_prompt: None,
            persistent_message: None,
            suggested_pattern: None,
            command_preview: preview.map(|p| p.to_string()),
        },
        request_id: "r1".to_string(),
        selected_index,
        options: vec![
            PermissionOption::YesOnce,
            PermissionOption::TrustProject(PathBuf::from("/p")),
            PermissionOption::No,
        ],
    }
}

fn texts(lines: &[Vec<DialogSpan>]) -> Vec<String> {
    lines.iter().map(|l| l.iter().map(|s| s.text.as_str()).collect()).collect()
}

#[test]
fn dialog_shows_prompt_preview_choices_and_help() {
    let lines = permission_dialog_lines(&dialog(Some("a\nb\nc"), 1), "Run it?", "ls commands", 12);
    assert_eq!(
        texts(&lines),
        vec![
            "Run it?",
            "",
            " │ a",
            " │ b",
            " │ c",
            "",
            "  [y] Yes, once ",
            "> [t] yes, and ls commands ",
            "  [n] No ",
            "",
            "↑/↓ navigate, Enter/key to choose, Esc cancel",
        ]
    );
    assert_eq!(lines[0][0].style, DialogStyle::Bold);
    assert_eq!(lines[2][0].style, DialogStyle::Gutter);
    assert_eq!(lines[2][1].style, DialogStyle::Preview);
    assert_eq!(lines[6][0].style, DialogStyle::Plain);
    assert_eq!(lines[7][0].style, DialogStyle::Selected);
    assert_eq!(lines[10][0].style, DialogStyle::Help);
}

#[test]
fn dialog_cuts_the_preview_to_the_rows_left() {
    let lines = permission_dialog_lines(&dialog(Some("a\nb\nc"), 0), "Run it?", "x", 10);
    assert_eq!(texts(&lines)[2..5], [" │ a", " │ ... (2 more lines)", ""]);
    assert_eq!(lines[3][1].style, DialogStyle::MoreLines);
    let cramped = permission_dialog_lines(&dialog(Some("a\nb\nc"), 0), "Run it?", "x", 5);
    assert_eq!(texts(&cramped)[2], "> [y] Yes, once ");
    assert_eq!(cramped.len(), 7);
    let none = permission_dialog_lines(&dialog(None, 2), "Run it?", "x", 40);
    assert_eq!(texts(&none)[4], "> [n] No ");
}
