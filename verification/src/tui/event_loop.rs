//! The decisions of the event loop: what each event of the agent and each
//! answer of an input handler does to the interface state, what the loop
//! must do besides, when a frame is drawn, when the spinner moves, and when
//! the loop ends. The timers, the agent's channel and task, the input
//! handlers and the terminal are the program's; it asks these steps what to
//! do.
use crate::agent::AgentEvent;
use crate::tui::agent_events::event_fits;
use crate::tui::app_state::{permission_options, plain_line, status_line, AppState, LineKind};
use crate::tui::events::AgentState;
use std::path::PathBuf;
use vstd::prelude::*;

verus! {

/// After a scroll by mouse, no new frame is drawn for this many
/// milliseconds.
pub const SCROLL_RENDER_THROTTLE_MS: u64 = 50;

/// Why the loop woke up.
#[derive(Debug, Clone, Copy, PartialEq, Eq, Structural)]
pub enum LoopEvent {
    /// The frame timer (every 50 ms).
    RenderTick,
    /// The animation timer (every 100 ms), once the agent's pending events
    /// have been applied to the state.
    AnimationTick,
    /// A terminal event, once the input handlers have seen it: whether it
    /// was a mouse scroll, and the milliseconds since a scroll last drew a
    /// frame.
    Input { mouse_scroll: bool, ms_since_scroll_render: u64 },
}

/// What the loop does next.
#[derive(Debug, Clone, Copy, PartialEq, Eq, Structural)]
pub struct LoopAction {
    /// Draw a frame.
    pub render: bool,
    /// Move the spinner one frame on.
    pub tick_animation: bool,
    /// Leave the loop.
    pub quit: bool,
}

/// Whether the agent is busy, so that the spinner moves.
pub open spec fn animating(s: AgentState) -> bool {
    s == AgentState::Thinking || s == AgentState::ExecutingTools
}

/// The action for an event, given whether the agent is busy, whether lines
/// wait for the renderer and whether the state asks to quit: a frame timer
/// draws when the agent is busy or lines wait; the animation timer moves the
/// spinner when the agent is busy; input draws a frame, except a mouse scroll
/// within the throttle of the last scroll that drew one. The loop ends when
/// the state asks it to.
pub open spec fn loop_action(busy: bool, pending: bool, should_quit: bool, ev: LoopEvent) -> LoopAction {
    match ev {
        LoopEvent::RenderTick => LoopAction { render: busy || pending, tick_animation: false, quit: should_quit },
        LoopEvent::AnimationTick => LoopAction { render: false, tick_animation: busy, quit: should_quit },
        LoopEvent::Input { mouse_scroll, ms_since_scroll_render } => LoopAction {
            render: !mouse_scroll || ms_since_scroll_render >= SCROLL_RENDER_THROTTLE_MS,
            tick_animation: false,
            quit: should_quit,
        },
    }
}

/// Whether the agent's state makes the spinner move.
pub fn should_animate(state: AgentState) -> (r: bool)
    ensures
        r == animating(state),
{
    match state {
        AgentState::Thinking | AgentState::ExecutingTools => true,
        _ => false,
    }
}

/// What the loop does after `ev`, for the interface state `app` as it
/// stands then (see [`loop_action`]).
pub fn on_loop_event(app: &AppState, ev: LoopEvent) -> (r: LoopAction)
    ensures
        r == loop_action(animating(app.agent_state), app.pending().len() > 0, app.should_quit, ev),
{
    let busy = should_animate(app.agent_state);
    let quit = app.should_quit;
    match ev {
        LoopEvent::RenderTick => {
            let pending = app.has_pending_messages();
            LoopAction { render: busy || pending, tick_animation: false, quit }
        },
        LoopEvent::AnimationTick => LoopAction { render: false, tick_animation: busy, quit },
        LoopEvent::Input { mouse_scroll, ms_since_scroll_render } => LoopAction {
            render: !mouse_scroll || ms_since_scroll_render >= SCROLL_RENDER_THROTTLE_MS,
            tick_animation: false,
            quit,
        },
    }
}

/// What an input handler made of a terminal event.
pub enum KeyHandlerResult {
    /// Not this handler's event.
    NotHandled,
    /// Handled; nothing more to do.
    Handled,
    /// The user wants to leave.
    ShouldQuit,
    /// The user wants the running task stopped.
    ShouldCancelTask,
    /// The input is a slash command.
    StartCommand(String),
    /// The input is a message for the agent.
    StartConversation(String),
}

/// What the loop does besides the change to the interface state.
pub enum LoopCommand {
    /// Offer the terminal event to the next input handler.
    NextHandler,
    /// Nothing more.
    Done,
    /// Abort the running agent task and forget it.
    AbortTask,
    /// Forget the conversation: its messages, the token accounting and the
    /// session's cost.
    ClearConversation,
    /// Run a slash command.
    RunCommand(String),
    /// Start the agent on a message, as the running task.
    StartConversation(String),
}

/// The line added when the conversation is cleared.
pub open spec fn cleared_text() -> Seq<char> {
    "Conversation cleared.\n"@
}

/// The line added when the user stops the running task.
pub open spec fn cancelled_text() -> Seq<char> {
    "Task cancelled by user (press Ctrl+C again to quit)\n"@
}

/// `after` is `before` with the token counts at zero and the cleared line
/// added.
pub open spec fn after_clear(after: AppState, before: AppState) -> bool {
    &&& after.input_tokens == 0
    &&& after.output_tokens == 0
    &&& after.lines_added(&before, seq![plain_line(cleared_text())])
    &&& after.agent_state == before.agent_state
    &&& after.current_thinking_spinner == before.current_thinking_spinner
    &&& after.current_executing_spinner == before.current_executing_spinner
    &&& after.current_retry_status == before.current_retry_status
    &&& after.todos@ == before.todos@
    &&& after.same_dialogs(&before)
    &&& after.same_frame(&before)
    &&& after.active_tool_calls@ == before.active_tool_calls@
}

/// `after` is `before` with the running task stopped: the agent idle, both
/// approval dialogs closed, no call in flight, the cancel line added, and
/// the cancel request cleared.
pub open spec fn after_cancel(after: AppState, before: AppState) -> bool {
    &&& after.agent_state == AgentState::Idle
    &&& after.current_thinking_spinner == before.current_thinking_spinner
    &&& after.current_executing_spinner == before.current_executing_spinner
    &&& after.current_retry_status == before.current_retry_status
    &&& after.input_tokens == before.input_tokens
    &&& after.output_tokens == before.output_tokens
    &&& after.todos@ == before.todos@
    &&& after.approval_dialog_state is None
    &&& after.tool_permission_dialog_state is None
    &&& after.completion_state == before.completion_state
    &&& after.active_tool_calls@.len() == 0
    &&& after.lines_added(&before, seq![status_line(cancelled_text())])
    &&& after.same_frame(&AppState { should_cancel_task: false, ..before })
}

/// The interface's part of an agent event that the loop handles itself,
/// and of the others through [`AppState::handle_agent_event`]. `debug` is
/// whether debugging output is shown, `current_dir` the working directory
/// when it can be read.
pub open spec fn after_loop_agent_event(
    after: AppState,
    before: AppState,
    ev: AgentEvent,
    debug: bool,
    current_dir: Option<PathBuf>,
) -> bool {
    match ev {
        AgentEvent::ToolPermissionRequest { descriptor, request_id } => {
            &&& after.tool_permission_dialog_state matches Some(d) && d.descriptor == descriptor
                && d.request_id@ == request_id@ && d.selected_index == 0 && d.options@
                == permission_options(current_dir)
            &&& after.completion_state == before.completion_state
            &&& after.approval_dialog_state == before.approval_dialog_state
            &&& after.only_dialogs_differ(&before)
        },
        AgentEvent::ApprovalRequest { tool_call_id, tool_name } => {
            &&& after.approval_dialog_state matches Some(d) && d.tool_call_id@ == tool_call_id@
                && d.tool_name@ == tool_name@ && d.selected_index == 0
            &&& after.completion_state == before.completion_state
            &&& after.tool_permission_dialog_state == before.tool_permission_dialog_state
            &&& after.only_dialogs_differ(&before)
        },
        AgentEvent::Exit => after == AppState { should_quit: true, ..before },
        AgentEvent::ClearConversation => after_clear(after, before),
        AgentEvent::DebugMessage(msg) => if debug {
            &&& after.lines_added(&before, seq![(LineKind::Warning, "  [DEBUG] "@ + msg@)])
            &&& after.only_lines_differ(&before)
        } else {
            after == before
        },
        _ => after.after_event(&before, ev),
    }
}

/// Follows an event of the agent: opens the permission or approval dialog,
/// asks to quit, clears the conversation (the loop forgets the rest of it),
/// shows debugging output when it is on, and hands every other event to
/// the interface state (see [`after_loop_agent_event`]).
pub fn on_agent_event(app: &mut AppState, ev: AgentEvent, debug: bool, current_dir: Option<PathBuf>) -> (r:
    LoopCommand)
    requires
        event_fits(ev),
    ensures
        after_loop_agent_event(*final(app), *old(app), ev, debug, current_dir),
        r == (if ev is ClearConversation {
            LoopCommand::ClearConversation
        } else {
            LoopCommand::Done
        }),
{
    match ev {
        AgentEvent::ToolPermissionRequest { descriptor, request_id } => {
            app.show_tool_permission_dialog(descriptor, request_id, current_dir);
            LoopCommand::Done
        },
        AgentEvent::ApprovalRequest { tool_call_id, tool_name } => {
            app.show_approval_dialog(tool_call_id, tool_name);
            LoopCommand::Done
        },
        AgentEvent::Exit => {
            app.should_quit = true;
            LoopCommand::Done
        },
        AgentEvent::ClearConversation => {
            app.input_tokens = 0;
            app.output_tokens = 0;
            app.add_message("Conversation cleared.\n".to_string());
            LoopCommand::ClearConversation
        },
        AgentEvent::DebugMessage(msg) => {
            if debug {
                app.add_debug_message(msg);
            }
            LoopCommand::Done
        },
        other => {
            app.handle_agent_event(other);
            LoopCommand::Done
        },
    }
}

/// Follows what an input handler made of a terminal event, given whether an
/// agent task is running:
/// - not handled: the next handler is asked, nothing changes;
/// - handled: nothing more;
/// - quit: the state asks to quit, and a running task is aborted;
/// - cancel: a running task is aborted and the interface shows it stopped
///   (see [`after_cancel`]); the cancel request is cleared either way;
/// - a command or a message is handed on to be run.
pub fn on_handler_result(app: &mut AppState, result: KeyHandlerResult, task_active: bool) -> (r:
    LoopCommand)
    ensures
        match result {
            KeyHandlerResult::NotHandled => r == LoopCommand::NextHandler && *final(app) == *old(app),
            KeyHandlerResult::Handled => r == LoopCommand::Done && *final(app) == *old(app),
            KeyHandlerResult::ShouldQuit => *final(app) == (AppState { should_quit: true, ..*old(app) })
                && r == (if task_active {
                LoopCommand::AbortTask
            } else {
                LoopCommand::Done
            }),
            KeyHandlerResult::ShouldCancelTask => if task_active {
                r == LoopCommand::AbortTask && after_cancel(*final(app), *old(app))
            } else {
                r == LoopCommand::Done && *final(app) == (AppState { should_cancel_task: false, ..*old(app) })
            },
            KeyHandlerResult::StartCommand(input) => r == LoopCommand::RunCommand(input) && *final(app)
                == *old(app),
            KeyHandlerResult::StartConversation(input) => r == LoopCommand::StartConversation(input)
                && *final(app) == *old(app),
        },
{
    match result {
        KeyHandlerResult::NotHandled => LoopCommand::NextHandler,
        KeyHandlerResult::Handled => LoopCommand::Done,
        KeyHandlerResult::ShouldQuit => {
            app.should_quit = true;
            if task_active {
                LoopCommand::AbortTask
            } else {
                LoopCommand::Done
            }
        },
        KeyHandlerResult::ShouldCancelTask => {
            let r = if task_active {
                app.agent_state = AgentState::Idle;
                app.hide_approval_dialog();
                app.hide_tool_permission_dialog();
                app.clear_active_tool_calls();
                app.add_status_message("Task cancelled by user (press Ctrl+C again to quit)\n");
                LoopCommand::AbortTask
            } else {
                LoopCommand::Done
            };
            app.should_cancel_task = false;
            r
        },
        KeyHandlerResult::StartCommand(input) => LoopCommand::RunCommand(input),
        KeyHandlerResult::StartConversation(input) => LoopCommand::StartConversation(input),
    }
}

} // verus!
