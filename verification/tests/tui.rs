use hoosh::agent::AgentEvent;
use hoosh::tools::permissions::ToolPermissionDescriptor;
use hoosh::tui::app_state::{AppState, MessageLine};
use hoosh::tui::event_loop::{
    on_agent_event, on_handler_result, on_loop_event, should_animate, KeyHandlerResult, LoopAction,
    LoopCommand, LoopEvent,
};
use hoosh::tui::events::AgentState;
use hoosh::tui::app_state::{CompletionState, InitialPermissionDialogState};
use hoosh::tui::components::active_tool_calls::truncate_targets;
use hoosh::tui::components::status_bar::radio_wave;
use std::path::PathBuf;

fn names(v: &[&str]) -> Vec<String> {
    v.iter().map(|s| s.to_string()).collect()
}

#[test]
fn radio_wave_frames() {
    assert_eq!(radio_wave(0), "⣀⣶⣤");
    assert_eq!(radio_wave(2), "⣤⣶⣤");
    assert_eq!(radio_wave(7), "⣶⣤⣤");
    assert_eq!(radio_wave(10), "⣤⣀⣶");
    assert_eq!(radio_wave(0).chars().count(), 3);
}

#[test]
fn truncate_targets_fits_or_counts() {
    assert_eq!(truncate_targets(&names(&["a.rs", "b.rs"]), 40), "a.rs, b.rs");
    assert_eq!(
        truncate_targets(&names(&["alpha.rs", "beta.rs", "gamma.rs"]), 22),
        "alpha.rs, beta.rs +1 more"
    );
    assert_eq!(truncate_targets(&names(&["a_very_long_name.rs"]), 4), "1 files");
    assert_eq!(truncate_targets(&names(&[]), 10), "");
}

#[test]
fn completion_next_then_prev_returns() {
    let mut state = CompletionState::new(0);
    state.candidates = names(&["a", "b", "c", "d"]);
    state.selected_index = 3;
    state.select_next();
    assert_eq!(state.selected_index, 0);
    state.select_prev();
    assert_eq!(state.selected_index, 3);
}

#[test]
fn completion_selection_stays_visible() {
    let mut state = CompletionState::new(1);
    state.candidates = (0..30).map(|i| i.to_string()).collect();
    for _ in 0..25 {
        state.select_next();
        assert!(state.scroll_offset <= state.selected_index);
        assert!(state.selected_index < state.scroll_offset + 10);
    }
    assert_eq!(state.selected_index, 25);
    assert_eq!(state.scroll_offset, 16);
    assert_eq!(state.selected_item(), Some("25"));
}

#[test]
fn initial_permission_dialog_starts_at_first_choice() {
    let d = InitialPermissionDialogState::new(PathBuf::from("/proj"));
    assert_eq!(d.selected_index, 0);
    assert_eq!(d.project_path, PathBuf::from("/proj"));
}

#[test]
fn event_loop_decisions() {
    let mut app = hoosh::tui::app_state::AppState::new();
    let _ = app.drain_pending_messages();
    app.agent_state = AgentState::Idle;
    assert!(!should_animate(AgentState::Idle));
    assert!(should_animate(AgentState::ExecutingTools));
    assert!(!should_animate(AgentState::Summarizing));
    assert_eq!(
        on_loop_event(&app, LoopEvent::RenderTick),
        LoopAction { render: false, tick_animation: false, quit: false }
    );
    app.agent_state = AgentState::Thinking;
    assert!(on_loop_event(&app, LoopEvent::RenderTick).render);
    assert!(on_loop_event(&app, LoopEvent::AnimationTick).tick_animation);
    let scroll = |ms| LoopEvent::Input { mouse_scroll: true, ms_since_scroll_render: ms };
    assert!(!on_loop_event(&app, scroll(10)).render);
    assert!(on_loop_event(&app, scroll(50)).render);
    assert!(on_loop_event(&app, LoopEvent::Input { mouse_scroll: false, ms_since_scroll_render: 0 }).render);
    app.should_quit = true;
    assert!(on_loop_event(&app, LoopEvent::AnimationTick).quit);
}

fn last_pending_text(app: &mut AppState) -> Option<String> {
    match app.drain_pending_messages().pop() {
        Some(MessageLine::Plain(t)) => Some(t),
        Some(MessageLine::Styled(l)) => Some(l.text),
        Some(MessageLine::Markdown(t)) => Some(t),
        None => None,
    }
}

#[test]
fn loop_follows_agent_events() {
    let mut app = AppState::new();
    let _ = app.drain_pending_messages();
    assert!(matches!(on_agent_event(&mut app, AgentEvent::Exit, false, None), LoopCommand::Done));
    assert!(app.should_quit);

    app.input_tokens = 120;
    app.output_tokens = 40;
    let cmd = on_agent_event(&mut app, AgentEvent::ClearConversation, false, None);
    assert!(matches!(cmd, LoopCommand::ClearConversation));
    assert_eq!((app.input_tokens, app.output_tokens), (0, 0));
    assert_eq!(last_pending_text(&mut app).as_deref(), Some("Conversation cleared.\n"));

    on_agent_event(&mut app, AgentEvent::DebugMessage("x".to_string()), false, None);
    assert_eq!(last_pending_text(&mut app), None);
    on_agent_event(&mut app, AgentEvent::DebugMessage("x".to_string()), true, None);
    assert_eq!(last_pending_text(&mut app).as_deref(), Some("  [DEBUG] x"));

    let descriptor = ToolPermissionDescriptor {
        kind: "bash".to_string(),
        target: "ls".to_string(),
        read_only: true,
        destructive: false,
        approval_title: None,
        approval_prompt: None,
        persistent_message: None,
        suggested_pattern: None,
        command_preview: None,
    };
    let ev = AgentEvent::ToolPermissionRequest { descriptor, request_id: "r7".to_string() };
    on_agent_event(&mut app, ev, false, Some(PathBuf::from("/p")));
    let d = app.tool_permission_dialog_state.as_ref().unwrap();
    assert_eq!(d.request_id, "r7");
    assert_eq!(d.options.len(), 3);
    let ev = AgentEvent::ApprovalRequest { tool_call_id: "c1".to_string(), tool_name: "bash".to_string() };
    on_agent_event(&mut app, ev, false, None);
    assert_eq!(app.approval_dialog_state.as_ref().unwrap().tool_call_id, "c1");

    on_agent_event(&mut app, AgentEvent::Thinking, false, None);
    assert_eq!(app.agent_state, AgentState::Thinking);
}

#[test]
fn loop_follows_handler_results() {
    let mut app = AppState::new();
    let _ = app.drain_pending_messages();
    assert!(matches!(on_handler_result(&mut app, KeyHandlerResult::NotHandled, true), LoopCommand::NextHandler));
    assert!(matches!(on_handler_result(&mut app, KeyHandlerResult::Handled, true), LoopCommand::Done));
    match on_handler_result(&mut app, KeyHandlerResult::StartConversation("hi".to_string()), false) {
        LoopCommand::StartConversation(s) => assert_eq!(s, "hi"),
        _ => panic!("expected a conversation to start"),
    }
    match on_handler_result(&mut app, KeyHandlerResult::StartCommand("/clear".to_string()), false) {
        LoopCommand::RunCommand(s) => assert_eq!(s, "/clear"),
        _ => panic!("expected a command"),
    }

    app.agent_state = AgentState::Thinking;
    app.should_cancel_task = true;
    assert!(matches!(on_handler_result(&mut app, KeyHandlerResult::ShouldCancelTask, false), LoopCommand::Done));
    assert!(!app.should_cancel_task);
    assert_eq!(app.agent_state, AgentState::Thinking);
    assert_eq!(last_pending_text(&mut app), None);

    app.should_cancel_task = true;
    app.show_approval_dialog("c1".to_string(), "bash".to_string());
    assert!(matches!(on_handler_result(&mut app, KeyHandlerResult::ShouldCancelTask, true), LoopCommand::AbortTask));
    assert!(!app.should_cancel_task);
    assert_eq!(app.agent_state, AgentState::Idle);
    assert!(app.approval_dialog_state.is_none());
    assert_eq!(
        last_pending_text(&mut app).as_deref(),
        Some("  ⎿  Task cancelled by user (press Ctrl+C again to quit)\n")
    );

    assert!(matches!(on_handler_result(&mut app, KeyHandlerResult::ShouldQuit, false), LoopCommand::Done));
    assert!(app.should_quit);
    assert!(matches!(on_handler_result(&mut app, KeyHandlerResult::ShouldQuit, true), LoopCommand::AbortTask));
}

#[test]
fn radio_wave_repeats_and_stays_below_the_top() {
    for frame in 0..200usize {
        let w = radio_wave(frame);
        assert_eq!(w.chars().count(), 3);
        assert!(w.chars().all(|c| c == '⣀' || c == '⣤' || c == '⣶'));
        assert_eq!(radio_wave(frame + 42), w);
    }
}
