use hoosh::agent::AgentEvent;
use hoosh::tools::permissions::ToolPermissionDescriptor;
use hoosh::tools::todo_write::{TodoItem, TodoStatus};
use hoosh::tui::app_layout::{Layout, LayoutEntry, LayoutSlot};
use hoosh::tui::app_state::AppState;

fn entry(layout: &Layout, slot: LayoutSlot, nth: usize) -> LayoutEntry {
    *layout.entries.iter().filter(|e| e.slot == slot).nth(nth).unwrap()
}

fn descriptor(preview: Option<String>) -> ToolPermissionDescriptor {
    ToolPermissionDescriptor {
        kind: "bash".to_string(),
        target: "ls".to_string(),
        read_only: false,
        destructive: false,
        approval_title: None,
        approval_prompt: None,
        persistent_message: None,
        suggested_pattern: None,
        command_preview: preview,
    }
}

#[test]
fn idle_layout() {
    let state = AppState::new();
    let layout = Layout::create(&state);
    let slots: Vec<LayoutSlot> = layout.entries.iter().map(|e| e.slot).collect();
    assert_eq!(
        slots,
        vec![
            LayoutSlot::Spacer,
            LayoutSlot::ActiveToolCalls,
            LayoutSlot::SubagentResults,
            LayoutSlot::BashResults,
            LayoutSlot::Spacer,
            LayoutSlot::StatusBar,
            LayoutSlot::TodoList,
            LayoutSlot::InputField,
            LayoutSlot::ModeIndicator,
        ]
    );
    assert!(!entry(&layout, LayoutSlot::ActiveToolCalls, 0).visible);
    assert!(!entry(&layout, LayoutSlot::Spacer, 1).visible);
    assert!(entry(&layout, LayoutSlot::ModeIndicator, 0).visible);
    assert!(!entry(&layout, LayoutSlot::TodoList, 0).visible);
}

#[test]
fn tool_call_rows() {
    let mut state = AppState::new();
    state.handle_agent_event(AgentEvent::ToolCalls(vec![
        ("a".to_string(), "Bash(make)".to_string()),
        ("b".to_string(), "Task(x)".to_string()),
    ]));
    state.set_tool_call_result("a", "ok".to_string());
    for i in 0..7 {
        state.handle_agent_event(AgentEvent::SubagentStepProgress {
            tool_call_id: "b".to_string(),
            step_number: i,
            action_type: "s".to_string(),
            description: "d".to_string(),
            budget_pct_bits: 0,
        });
    }
    for i in 0..3 {
        state.handle_agent_event(AgentEvent::BashOutputChunk {
            tool_call_id: "a".to_string(),
            output_line: "x".to_string(),
            stream_type: "stdout".to_string(),
            line_number: i,
        });
    }
    let layout = Layout::create(&state);
    let calls = entry(&layout, LayoutSlot::ActiveToolCalls, 0);
    assert_eq!((calls.height, calls.visible), (3, true));
    let steps = entry(&layout, LayoutSlot::SubagentResults, 0);
    assert_eq!((steps.height, steps.visible), (6, true));
    let output = entry(&layout, LayoutSlot::BashResults, 0);
    assert_eq!((output.height, output.visible), (3, true));
    assert!(entry(&layout, LayoutSlot::Spacer, 1).visible);
}

#[test]
fn todo_rows_are_capped() {
    let mut state = AppState::new();
    let todos: Vec<TodoItem> = (0..12)
        .map(|i| TodoItem::new(format!("t{}", i), TodoStatus::Pending, "T".to_string()))
        .collect();
    state.handle_agent_event(AgentEvent::TodoUpdate { todos });
    let todo = entry(&Layout::create(&state), LayoutSlot::TodoList, 0);
    assert_eq!((todo.height, todo.visible), (10, true));
}

#[test]
fn dialogs_take_their_rows() {
    let mut state = AppState::new();
    state.show_tool_permission_dialog(descriptor(None), "r".to_string(), None);
    let layout = Layout::create(&state);
    assert_eq!(entry(&layout, LayoutSlot::PermissionDialog, 0).height, 8);
    assert!(!entry(&layout, LayoutSlot::ModeIndicator, 0).visible);

    let preview: String = (0..20).map(|i| format!("line {}\n", i)).collect();
    state.show_tool_permission_dialog(descriptor(Some(preview)), "r".to_string(), Some("/p".into()));
    // 6 + 3 options, a spacer, 15 lines and one saying more follow
    assert_eq!(entry(&Layout::create(&state), LayoutSlot::PermissionDialog, 0).height, 26);

    state.show_tool_permission_dialog(descriptor(Some("a\nb".to_string())), "r".to_string(), None);
    assert_eq!(entry(&Layout::create(&state), LayoutSlot::PermissionDialog, 0).height, 11);

    state.hide_tool_permission_dialog();
    state.show_approval_dialog("c".to_string(), "bash".to_string());
    assert_eq!(entry(&Layout::create(&state), LayoutSlot::ApprovalDialog, 0).height, 6);

    state.hide_approval_dialog();
    state.start_completion(0);
    state.set_completion_candidates((0..14).map(|i| i.to_string()).collect());
    let popup = entry(&Layout::create(&state), LayoutSlot::CompletionPopup, 0);
    assert_eq!((popup.height, popup.visible), (10, true));
}
