use hoosh::agent::AgentEvent;
use hoosh::tools::permissions::ToolPermissionDescriptor;
use hoosh::tools::todo_write::{TodoItem, TodoStatus};
use hoosh::tui::app_state::{
    AppState, InitialPermissionChoice, LineKind, MessageLine, ToolCallStatus, Tone,
};
use hoosh::tui::clock::format_elapsed;
use hoosh::tui::events::AgentState;
use hoosh::tui::input::TextAttachment;

fn line(m: &MessageLine) -> (LineKind, String) {
    match m {
        MessageLine::Plain(s) => (LineKind::Plain, s.clone()),
        MessageLine::Markdown(s) => (LineKind::Markdown, s.clone()),
        MessageLine::Styled(l) => (
            match l.tone {
                Tone::Warning => LineKind::Warning,
                Tone::Destructive => LineKind::Destructive,
            },
            l.text.clone(),
        ),
    }
}

fn shown(state: &AppState) -> Vec<(LineKind, String)> {
    state.messages.iter().map(line).collect()
}

fn plain(s: &str) -> (LineKind, String) {
    (LineKind::Plain, s.to_string())
}

fn with_calls(calls: &[(&str, &str)]) -> AppState {
    let mut state = AppState::new();
    state.handle_agent_event(AgentEvent::ToolCalls(
        calls.iter().map(|(a, b)| (a.to_string(), b.to_string())).collect(),
    ));
    state
}

#[test]
fn thinking_and_tool_calls_set_the_activity() {
    let mut state = AppState::new();
    state.handle_agent_event(AgentEvent::Thinking);
    assert_eq!(state.agent_state, AgentState::Thinking);
    assert!(state.current_thinking_spinner < 7);

    state.handle_agent_event(AgentEvent::ToolCalls(vec![
        ("c1".to_string(), "Bash(ls)".to_string()),
        ("c2".to_string(), "Read(a.rs)".to_string()),
    ]));
    assert_eq!(state.agent_state, AgentState::ExecutingTools);
    assert!(state.current_executing_spinner < 7);
    assert_eq!(state.active_tool_calls.len(), 2);
    assert_eq!(state.active_tool_calls[1].tool_call_id, "c2");
    assert_eq!(state.active_tool_calls[1].display_name, "Read(a.rs)");
    assert_eq!(state.active_tool_calls[1].status, ToolCallStatus::Starting);
    assert!(state.messages.is_empty());
}

#[test]
fn call_events_update_the_first_matching_call() {
    let mut state = with_calls(&[("c1", "Bash(ls)"), ("c2", "Read(a.rs)")]);
    state.handle_agent_event(AgentEvent::ToolExecutionStarted { tool_call_id: "c2".to_string() });
    assert_eq!(state.active_tool_calls[0].status, ToolCallStatus::Starting);
    assert_eq!(state.active_tool_calls[1].status, ToolCallStatus::Executing);
    state.handle_agent_event(AgentEvent::ToolResult {
        tool_call_id: "c2".to_string(),
        summary: "Read 3 lines".to_string(),
    });
    assert_eq!(state.active_tool_calls[1].result_summary, Some("Read 3 lines".to_string()));
    state.handle_agent_event(AgentEvent::ToolExecutionCompleted { tool_call_id: "c2".to_string() });
    assert_eq!(state.active_tool_calls[1].status, ToolCallStatus::Completed);
    state.handle_agent_event(AgentEvent::ToolExecutionStarted { tool_call_id: "none".to_string() });
    assert_eq!(state.active_tool_calls[0].status, ToolCallStatus::Starting);
}

#[test]
fn all_tools_complete_closes_every_call() {
    let mut state = with_calls(&[("c1", "Bash(ls)"), ("c2", "Read(a.rs)")]);
    state.set_tool_call_result("c1", "3 files".to_string());
    state.update_tool_call_status("c2", ToolCallStatus::Error("no such file".to_string()));
    state.handle_agent_event(AgentEvent::AllToolsComplete);
    assert_eq!(
        shown(&state),
        vec![
            plain("\n● Bash(ls)"),
            plain("  ⎿  3 files"),
            plain("\n● Read(a.rs)"),
            (LineKind::Destructive, "  ⎿  no such file".to_string()),
        ]
    );
    assert!(state.active_tool_calls.is_empty());
    assert_eq!(state.agent_state, AgentState::Thinking);
    assert_eq!(state.drain_pending_messages().len(), 4);
}

#[test]
fn answers_and_errors_leave_the_agent_idle() {
    let mut state = AppState::new();
    state.handle_agent_event(AgentEvent::Thinking);
    state.handle_agent_event(AgentEvent::FinalResponse("**done**".to_string()));
    assert_eq!(state.agent_state, AgentState::Idle);
    assert_eq!(
        shown(&state),
        vec![plain("\n"), (LineKind::Markdown, "**done**".to_string())]
    );

    state.handle_agent_event(AgentEvent::Error("boom".to_string()));
    state.handle_agent_event(AgentEvent::MaxStepsReached(5));
    state.handle_agent_event(AgentEvent::SummaryError { error: "timeout".to_string() });
    let lines = shown(&state);
    assert_eq!(lines[2], (LineKind::Destructive, "  ⎿  boom".to_string()));
    assert_eq!(lines[3], plain("   Maximum conversation steps (5) reached, stopping."));
    assert_eq!(lines[4], plain("Error summarizing conversation: timeout"));
}

#[test]
fn rejections_list_each_call_with_the_reason() {
    let mut state = with_calls(&[("c1", "Bash(rm x)")]);
    state.handle_agent_event(AgentEvent::UserRejection(vec![
        "Bash(rm x)".to_string(),
        "Write(y)".to_string(),
    ]));
    assert_eq!(
        shown(&state),
        vec![
            plain("\n● Bash(rm x)"),
            plain("  ⎿  Rejected, tell me what to do instead"),
            plain("\n● Write(y)"),
            plain("  ⎿  Rejected, tell me what to do instead"),
        ]
    );
    assert!(state.active_tool_calls.is_empty());
    assert_eq!(state.agent_state, AgentState::Idle);

    let mut denied = AppState::new();
    denied.handle_agent_event(AgentEvent::PermissionDenied(vec!["Edit(z)".to_string()]));
    assert_eq!(shown(&denied)[1], plain("  ⎿  Permission denied, tell me what to do instead"));
}

#[test]
fn retries_show_progress_then_the_outcome() {
    let mut state = AppState::new();
    state.handle_agent_event(AgentEvent::Thinking);
    state.handle_agent_event(AgentEvent::RetryEvent {
        message: "retrying (1/3)".to_string(),
        is_success: false,
        attempt: 1,
        max_attempts: 3,
    });
    assert_eq!(state.current_retry_status, Some("retrying (1/3)".to_string()));
    assert!(state.messages.is_empty());
    state.handle_agent_event(AgentEvent::RetryEvent {
        message: "recovered".to_string(),
        is_success: true,
        attempt: 2,
        max_attempts: 3,
    });
    assert_eq!(state.current_retry_status, None);
    assert_eq!(shown(&state), vec![plain("  ⎿  recovered")]);
    assert_eq!(state.agent_state, AgentState::Thinking);
    state.handle_agent_event(AgentEvent::RetryEvent {
        message: "gave up".to_string(),
        is_success: false,
        attempt: 3,
        max_attempts: 3,
    });
    assert_eq!(state.current_retry_status, None);
    assert_eq!(state.agent_state, AgentState::Idle);
    assert_eq!(shown(&state)[1], (LineKind::Destructive, "  ⎿  gave up".to_string()));
}

#[test]
fn summaries_tokens_and_quiet_events() {
    let mut state = AppState::new();
    state.handle_agent_event(AgentEvent::Summarizing);
    assert_eq!(state.agent_state, AgentState::Summarizing);
    state.handle_agent_event(AgentEvent::SummaryComplete);
    assert_eq!(state.agent_state, AgentState::Idle);
    state.handle_agent_event(AgentEvent::TokenUsage { input_tokens: 120, output_tokens: 45 });
    assert_eq!((state.input_tokens, state.output_tokens), (120, 45));
    state.handle_agent_event(AgentEvent::Exit);
    state.handle_agent_event(AgentEvent::DebugMessage("x".to_string()));
    state.handle_agent_event(AgentEvent::StepStarted);
    state.handle_agent_event(AgentEvent::AssistantThought(String::new()));
    assert!(state.messages.is_empty());
    state.handle_agent_event(AgentEvent::AssistantThought("hmm".to_string()));
    state.handle_agent_event(AgentEvent::ToolPreview {
        tool_call_id: "c1".to_string(),
        preview: "diff".to_string(),
    });
    assert_eq!(
        shown(&state),
        vec![plain("\n"), (LineKind::Markdown, "hmm".to_string()), plain("\ndiff")]
    );
}

#[test]
fn sub_agent_progress_and_totals() {
    let mut state = with_calls(&[("t1", "Task(explore)")]);
    let bits = 42.5f32.to_bits();
    state.handle_agent_event(AgentEvent::SubagentStepProgress {
        tool_call_id: "t1".to_string(),
        step_number: 1,
        action_type: "search".to_string(),
        description: "looking".to_string(),
        budget_pct_bits: bits,
    });
    state.handle_agent_event(AgentEvent::SubagentTaskComplete {
        tool_call_id: "t1".to_string(),
        total_tool_uses: 3,
        total_input_tokens: 1000,
        total_output_tokens: 500,
    });
    let call = &state.active_tool_calls[0];
    assert!(call.is_subagent_task);
    assert_eq!(call.budget_pct_bits.map(f32::from_bits), Some(42.5));
    assert_eq!(call.subagent_steps[0].description, "looking");
    assert_eq!(call.total_tool_uses, Some(3));
    assert_eq!(call.total_tokens, Some(1500));

    state.complete_single_tool_call("t1", |t| format!("{:.1}k", t as f64 / 1000.0));
    let lines = shown(&state);
    assert_eq!(lines[0], plain("\n● Task(explore)"));
    assert!(lines[1].1.starts_with("  ⎿ Done (3 tool uses · 1.5k tokens · "));
    assert!(lines[1].1.ends_with("s)"));
    assert!(state.active_tool_calls.is_empty());
}

#[test]
fn small_token_counts_are_written_in_full() {
    let mut state = with_calls(&[("t1", "Task(x)")]);
    state.handle_agent_event(AgentEvent::SubagentStepProgress {
        tool_call_id: "t1".to_string(),
        step_number: 1,
        action_type: "a".to_string(),
        description: "d".to_string(),
        budget_pct_bits: 0,
    });
    state.handle_agent_event(AgentEvent::SubagentTaskComplete {
        tool_call_id: "t1".to_string(),
        total_tool_uses: 1,
        total_input_tokens: 600,
        total_output_tokens: 50,
    });
    state.complete_single_tool_call("t1", |_| panic!("not a thousand"));
    assert!(shown(&state)[1].1.starts_with("  ⎿ Done (1 tool uses · 650 tokens · "));
}

#[test]
fn shell_output_is_recorded_on_its_call() {
    let mut state = with_calls(&[("b1", "Bash(make)")]);
    state.handle_agent_event(AgentEvent::BashOutputChunk {
        tool_call_id: "b1".to_string(),
        output_line: "compiling".to_string(),
        stream_type: "stderr".to_string(),
        line_number: 7,
    });
    let call = &state.active_tool_calls[0];
    assert!(call.is_bash_streaming);
    assert_eq!(call.bash_output_lines[0].line_number, 7);
    assert_eq!(call.bash_output_lines[0].stream_type, "stderr");
}

#[test]
fn finished_task_lists_are_cleared() {
    let item = |s: TodoStatus| TodoItem::new("a".to_string(), s, "A".to_string());
    let mut state = AppState::new();
    state.handle_agent_event(AgentEvent::TodoUpdate {
        todos: vec![item(TodoStatus::Completed), item(TodoStatus::Pending)],
    });
    assert_eq!(state.todos.len(), 2);
    state.handle_agent_event(AgentEvent::TodoUpdate {
        todos: vec![item(TodoStatus::Completed), item(TodoStatus::Completed)],
    });
    assert!(state.todos.is_empty());
    state.handle_agent_event(AgentEvent::TodoUpdate { todos: vec![] });
    assert!(state.todos.is_empty());
}

#[test]
fn history_keeps_the_newest_lines() {
    let mut state = AppState::new();
    state.max_messages = 2;
    for i in 0..5 {
        state.add_message(format!("m{}", i));
        assert!(state.messages.len() <= 2);
    }
    assert_eq!(shown(&state), vec![plain("m3"), plain("m4")]);
    assert_eq!(state.drain_pending_messages().len(), 5);
}

#[test]
fn styled_lines_and_prefixes() {
    let mut state = AppState::new();
    state.add_debug_message("x=1".to_string());
    state.add_user_input("hi");
    state.add_tool_preview("p");
    assert_eq!(
        shown(&state),
        vec![
            (LineKind::Warning, "  [DEBUG] x=1".to_string()),
            plain("\n> hi"),
            plain("\np"),
        ]
    );
}

#[test]
fn approval_choice_flips_back_and_forth() {
    let mut state = AppState::new();
    state.select_next_approval_option();
    assert!(state.approval_dialog_state.is_none());
    state.show_approval_dialog("c".to_string(), "bash".to_string());
    state.select_prev_approval_option();
    assert_eq!(state.approval_dialog_state.as_ref().unwrap().selected_index, 1);
    state.select_prev_approval_option();
    assert_eq!(state.approval_dialog_state.as_ref().unwrap().selected_index, 0);
}

#[test]
fn permission_dialog_choices_wrap() {
    let descriptor = ToolPermissionDescriptor {
        kind: "bash".to_string(),
        target: "ls".to_string(),
        read_only: true,
        destructive: false,
        approval_title: None,
        approval_prompt: None,
        persistent_message: None,
        suggested_pattern: None,
        command_preview: None,
    };
    let mut state = AppState::new();
    state.show_tool_permission_dialog(descriptor, "r1".to_string(), Some(std::path::PathBuf::from("/p")));
    assert_eq!(state.tool_permission_dialog_state.as_ref().unwrap().options.len(), 3);
    state.select_prev_tool_permission_option();
    assert_eq!(state.tool_permission_dialog_state.as_ref().unwrap().selected_index, 2);
    state.select_next_tool_permission_option();
    assert_eq!(state.tool_permission_dialog_state.as_ref().unwrap().selected_index, 0);
    state.hide_tool_permission_dialog();
    assert!(!state.is_showing_tool_permission_dialog());
}

#[test]
fn attachments_expand_into_the_prompt() {
    let mut state = AppState::new();
    let a = "x".repeat(201);
    let b = "y".repeat(250);
    let id1 = state.create_attachment(a.clone()).unwrap();
    let id2 = state.create_attachment(b.clone()).unwrap();
    let prompt = format!("see [pasted text-{}] and [pasted text-{}] and [pasted text-{}]", id2, id1, id2);
    assert_eq!(
        state.expand_attachments(&prompt),
        format!("see {} and {} and {}", b, a, b)
    );
    assert_eq!(state.expand_attachments("no tokens"), "no tokens");
    assert_eq!(
        state.delete_attachment(7).unwrap_err().message(),
        "Attachment not found: 7"
    );
}

#[test]
fn attachments_measure_their_text() {
    let a = TextAttachment::new(4, "one\r\ntwo\n".to_string());
    assert_eq!((a.id, a.size_chars, a.line_count), (4, 9, 2));
    let empty = TextAttachment::new(1, String::new());
    assert_eq!(empty.line_count, 1);
}

#[test]
fn elapsed_times() {
    assert_eq!(format_elapsed(0), "0s");
    assert_eq!(format_elapsed(59), "59s");
    assert_eq!(format_elapsed(60), "1m0s");
    assert_eq!(format_elapsed(125), "2m5s");
}

#[test]
fn first_run_dialog_choices() {
    let mut state = AppState::new();
    assert!(!state.is_showing_initial_permission_dialog());
    assert!(state.get_selected_initial_permission_choice().is_none());
    state.show_initial_permission_dialog(std::path::PathBuf::from("/proj"));
    assert!(state.is_showing_initial_permission_dialog());
    assert!(matches!(
        state.get_selected_initial_permission_choice(),
        Some(InitialPermissionChoice::ReadOnly)
    ));
    state.select_next_initial_permission_option();
    assert!(matches!(
        state.get_selected_initial_permission_choice(),
        Some(InitialPermissionChoice::EnableWriteEdit)
    ));
    state.select_next_initial_permission_option();
    state.select_next_initial_permission_option();
    assert_eq!(state.initial_permission_dialog_state.as_ref().unwrap().selected_index, 0);
    state.select_prev_initial_permission_option();
    assert!(matches!(
        state.get_selected_initial_permission_choice(),
        Some(InitialPermissionChoice::Deny)
    ));
    state.hide_initial_permission_dialog();
    assert!(!state.is_showing_initial_permission_dialog());
}
