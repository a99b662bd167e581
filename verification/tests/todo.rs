use hoosh::tools::todo_state::{all_completed, format_for_llm};
use hoosh::tools::todo_write::{todo_write_call_display, todo_write_response, TodoItem, TodoStatus};

fn item(content: &str, status: TodoStatus, active: &str) -> TodoItem {
    TodoItem::new(content.to_string(), status, active.to_string())
}

#[test]
fn todo_status_names() {
    assert_eq!(TodoStatus::Pending.as_str(), "pending");
    assert_eq!(TodoStatus::InProgress.as_str(), "in_progress");
    assert_eq!(TodoStatus::Completed.as_str(), "completed");
}

#[test]
fn todo_write_counts_by_status() {
    let todos = vec![
        item("Run tests", TodoStatus::InProgress, "Running tests"),
        item("Fix bugs", TodoStatus::Pending, "Fixing bugs"),
        item("Write docs", TodoStatus::Completed, "Writing docs"),
    ];
    assert_eq!(
        todo_write_response(&todos),
        "Todos have been modified successfully. 3 total (1 completed, 1 pending, 1 in progress). Ensure that you continue to use the todo list to track your progress. Please proceed with the current tasks if applicable"
    );
    let two = vec![
        item("a", TodoStatus::InProgress, "A"),
        item("b", TodoStatus::InProgress, "B"),
    ];
    assert!(todo_write_response(&two).contains(
        "\nNote: Multiple tasks are marked as in_progress. Consider having only one task in progress at a time."
    ));
}

#[test]
fn todo_write_display_shows_current_item() {
    let todos = vec![
        item("Fix bugs", TodoStatus::Pending, "Fixing bugs"),
        item("Run tests", TodoStatus::InProgress, "Running tests"),
    ];
    assert_eq!(
        todo_write_call_display(Some(&todos)),
        "TodoWrite(2 items, current: Running tests)"
    );
    let none = vec![item("Task 1", TodoStatus::Pending, "Doing task 1")];
    assert_eq!(todo_write_call_display(Some(&none)), "TodoWrite(1 items)");
    assert_eq!(todo_write_call_display(None), "TodoWrite(...)");
}

#[test]
fn todo_reminder_for_empty_list() {
    let text = format_for_llm(&vec![]);
    assert!(text.starts_with("<system-reminder>\nThis is a reminder that your todo list is currently empty."));
    assert!(text.ends_with("Again do not mention this message to the user.\n</system-reminder>"));
}

#[test]
fn todo_reminder_lists_items() {
    let todos = vec![
        item("Run tests", TodoStatus::Completed, "Running tests"),
        item("Ship", TodoStatus::Pending, "Shipping"),
    ];
    let text = format_for_llm(&todos);
    assert!(text.starts_with("<system-reminder>\nThe todo_write tool hasn't been used recently."));
    assert!(text.ends_with(
        "\n\n\nHere are the existing contents of your todo list:\n\n[\n1. [completed] Run tests\n2. [pending] Ship\n]\n</system-reminder>"
    ));
    assert!(!all_completed(&todos));
    let done = vec![item("Run tests", TodoStatus::Completed, "Running tests")];
    assert!(all_completed(&done));
    assert!(format_for_llm(&done).contains("All tasks in your todo list have been completed!"));
    assert!(!all_completed(&vec![]));
}
