//! How the interface state follows the events of the agent.
use crate::agent::AgentEvent;
use crate::text::{chars_of, decimal, decimal_exec, extend, extend_str, string_of};
use crate::tools::todo_state::{all_completed, all_done};
use crate::tools::todo_write::TodoItem;
use crate::tui::app_state::{
    call_index,
    call_line,
    calls_updated,
    error_line,
    finished_calls_lines,
    is_new_call,
    lemma_capped_push_all_small,
    lemma_lines_added_twice,
    plain_line,
    random_spinner,
    status_line,
    text_block,
    ActiveToolCall,
    AppState,
    BashOutputLine,
    LineKind,
    SubagentStepSummary,
    ToolCallStatus,
    SPINNER_STYLES,
};
use crate::tui::events::AgentState;
use vstd::prelude::*;

verus! {

/// The lines that record rejected tool calls: for each, its name and then
/// the reason.
pub open spec fn rejection_lines(names: Seq<String>, reason: Seq<char>) -> Seq<
    (LineKind, Seq<char>),
>
    decreases names.len(),
{
    if names.len() == 0 {
        Seq::empty()
    } else {
        rejection_lines(names.drop_last(), reason) + seq![
            call_line(names.last()@),
            status_line(reason),
        ]
    }
}

/// `after` is `before` with a new call, as [`is_new_call`] describes it, for
/// each announced id and name, in order.
pub open spec fn calls_announced(
    before: Seq<ActiveToolCall>,
    info: Seq<(String, String)>,
    after: Seq<ActiveToolCall>,
) -> bool {
    &&& after.len() == before.len() + info.len()
    &&& after.take(before.len() as int) == before
    &&& forall|k: int|
        0 <= k < info.len() ==> is_new_call(
            #[trigger] after[before.len() + k],
            info[k].0@,
            info[k].1@,
        )
}

/// The reason shown under tool calls the user rejected.
pub open spec fn rejected_reason() -> Seq<char> {
    "Rejected, tell me what to do instead"@
}

/// The reason shown under tool calls that were not permitted.
pub open spec fn denied_reason() -> Seq<char> {
    "Permission denied, tell me what to do instead"@
}

/// The line that says the conversation reached its step limit.
pub open spec fn max_steps_line(n: usize) -> (LineKind, Seq<char>) {
    plain_line("   Maximum conversation steps ("@ + decimal(n as nat) + ") reached, stopping."@)
}

/// The line that says summarizing failed.
pub open spec fn summary_error_line(error: Seq<char>) -> (LineKind, Seq<char>) {
    plain_line("Error summarizing conversation: "@ + error)
}

/// Whether the numbers an event carries can be added up.
pub open spec fn event_fits(e: AgentEvent) -> bool {
    match e {
        AgentEvent::SubagentTaskComplete { total_input_tokens, total_output_tokens, .. } => {
            total_input_tokens + total_output_tokens <= usize::MAX
        },
        _ => true,
    }
}

impl AppState {
    /// The agent's side but what it is doing is as in `other`.
    pub open spec fn same_agent_but_state(&self, other: &AppState) -> bool {
        &&& self.current_thinking_spinner == other.current_thinking_spinner
        &&& self.current_executing_spinner == other.current_executing_spinner
        &&& self.current_retry_status == other.current_retry_status
        &&& self.input_tokens == other.input_tokens
        &&& self.output_tokens == other.output_tokens
        &&& self.todos@ == other.todos@
    }

    /// Only what the agent is doing changed, to `st`.
    pub open spec fn now_doing(&self, before: &AppState, st: AgentState) -> bool {
        &&& self.agent_state == st
        &&& self.same_agent_but_state(before)
    }

    /// The calls in flight are as in `before`.
    pub open spec fn same_calls(&self, before: &AppState) -> bool {
        self.active_tool_calls@ == before.active_tool_calls@
    }

    /// Dialogs, pop-ups and the rest of the interface are as in `before`.
    pub open spec fn same_interface(&self, before: &AppState) -> bool {
        &&& self.same_dialogs(before)
        &&& self.same_frame(before)
    }

    /// Nothing changed.
    pub open spec fn unchanged(&self, before: &AppState) -> bool {
        &&& self.same_interface(before)
        &&& self.same_lines(before)
        &&& self.same_agent(before)
        &&& self.same_calls(before)
    }

    /// The agent thinks, with a new thinking spinner.
    pub open spec fn after_thinking(&self, before: &AppState) -> bool {
        &&& self.agent_state == AgentState::Thinking
        &&& self.current_thinking_spinner < SPINNER_STYLES
        &&& self.current_executing_spinner == before.current_executing_spinner
        &&& self.current_retry_status == before.current_retry_status
        &&& self.input_tokens == before.input_tokens
        &&& self.output_tokens == before.output_tokens
        &&& self.todos@ == before.todos@
        &&& self.same_lines(before)
        &&& self.same_calls(before)
        &&& self.same_interface(before)
    }

    /// `lines` were added; the agent then does `st`, or what it did.
    pub open spec fn after_lines(
        &self,
        before: &AppState,
        lines: Seq<(LineKind, Seq<char>)>,
        st: Option<AgentState>,
    ) -> bool {
        &&& self.lines_added(before, lines)
        &&& match st {
            Some(s) => self.now_doing(before, s),
            None => self.same_agent(before),
        }
        &&& self.same_calls(before)
        &&& self.same_interface(before)
    }

    /// The agent runs tools, with a new running spinner, and each announced
    /// call is added as starting.
    pub open spec fn after_tool_calls(&self, before: &AppState, info: Seq<(String, String)>) -> bool {
        &&& self.agent_state == AgentState::ExecutingTools
        &&& self.current_executing_spinner < SPINNER_STYLES
        &&& self.current_thinking_spinner == before.current_thinking_spinner
        &&& self.current_retry_status == before.current_retry_status
        &&& self.input_tokens == before.input_tokens
        &&& self.output_tokens == before.output_tokens
        &&& self.todos@ == before.todos@
        &&& self.same_lines(before)
        &&& calls_announced(before.active_tool_calls@, info, self.active_tool_calls@)
        &&& self.same_interface(before)
    }

    /// Only the calls in flight changed, to `calls`.
    pub open spec fn after_calls(&self, before: &AppState, calls: Seq<ActiveToolCall>) -> bool {
        &&& self.active_tool_calls@ == calls
        &&& self.same_lines(before)
        &&& self.same_agent(before)
        &&& self.same_interface(before)
    }

    /// Every call's closing lines were added, no call is in flight, and the
    /// agent thinks again.
    pub open spec fn after_all_tools(&self, before: &AppState) -> bool {
        &&& self.lines_added(before, finished_calls_lines(before.active_tool_calls@))
        &&& self.active_tool_calls@.len() == 0
        &&& self.now_doing(before, AgentState::Thinking)
        &&& self.same_interface(before)
    }

    /// Each refused call's name and the reason were added, no call is in
    /// flight, and the agent is idle.
    pub open spec fn after_refusal(&self, before: &AppState, names: Seq<String>, reason: Seq<char>) -> bool {
        &&& self.lines_added(before, rejection_lines(names, reason))
        &&& self.active_tool_calls@.len() == 0
        &&& self.now_doing(before, AgentState::Idle)
        &&& self.same_interface(before)
    }

    /// A retry: on success the retry line goes and the message is added;
    /// while attempts are left the message becomes the retry line; after the
    /// last, the retry line goes, the agent is idle and the message is added
    /// as an error.
    pub open spec fn after_retry(
        &self,
        before: &AppState,
        message: Seq<char>,
        is_success: bool,
        attempt: usize,
        max_attempts: usize,
    ) -> bool {
        &&& self.same_calls(before)
        &&& self.current_thinking_spinner == before.current_thinking_spinner
        &&& self.current_executing_spinner == before.current_executing_spinner
        &&& self.input_tokens == before.input_tokens
        &&& self.output_tokens == before.output_tokens
        &&& self.todos@ == before.todos@
        &&& self.same_interface(before)
        &&& if is_success {
            &&& self.current_retry_status is None
            &&& self.agent_state == before.agent_state
            &&& self.lines_added(before, seq![status_line(message)])
        } else if attempt < max_attempts {
            &&& self.current_retry_status matches Some(s) && s@ == message
            &&& self.agent_state == before.agent_state
            &&& self.same_lines(before)
        } else {
            &&& self.current_retry_status is None
            &&& self.agent_state == AgentState::Idle
            &&& self.lines_added(before, seq![error_line(message)])
        }
    }

    /// Only what the agent does changed, to `st`.
    pub open spec fn after_state(&self, before: &AppState, st: AgentState) -> bool {
        &&& self.now_doing(before, st)
        &&& self.same_lines(before)
        &&& self.same_calls(before)
        &&& self.same_interface(before)
    }

    /// Only the token counts changed.
    pub open spec fn after_tokens(&self, before: &AppState, input: usize, output: usize) -> bool {
        &&& self.input_tokens == input
        &&& self.output_tokens == output
        &&& self.agent_state == before.agent_state
        &&& self.current_thinking_spinner == before.current_thinking_spinner
        &&& self.current_executing_spinner == before.current_executing_spinner
        &&& self.current_retry_status == before.current_retry_status
        &&& self.todos@ == before.todos@
        &&& self.same_lines(before)
        &&& self.same_calls(before)
        &&& self.same_interface(before)
    }

    /// The step was recorded on the first call with the id, which is now a
    /// sub-agent with the given budget share; nothing changed without one.
    pub open spec fn after_step(
        &self,
        before: &AppState,
        id: Seq<char>,
        step: SubagentStepSummary,
        budget_pct_bits: u32,
    ) -> bool {
        &&& self.same_lines(before)
        &&& self.same_agent(before)
        &&& self.same_interface(before)
        &&& match call_index(before.active_tool_calls@, id) {
            Some(i) => {
                let c = self.active_tool_calls@[i];
                &&& self.active_tool_calls@ == before.active_tool_calls@.update(i, c)
                &&& c.subagent_steps@ == before.active_tool_calls@[i].subagent_steps@.push(step)
                &&& c == ActiveToolCall {
                    subagent_steps: c.subagent_steps,
                    is_subagent_task: true,
                    budget_pct_bits: Some(budget_pct_bits),
                    ..before.active_tool_calls@[i]
                }
            },
            None => self.same_calls(before),
        }
    }

    /// The line of output was recorded on the first call with the id, which
    /// is now streaming; nothing changed without one.
    pub open spec fn after_output(&self, before: &AppState, id: Seq<char>, line: BashOutputLine) -> bool {
        &&& self.same_lines(before)
        &&& self.same_agent(before)
        &&& self.same_interface(before)
        &&& match call_index(before.active_tool_calls@, id) {
            Some(i) => {
                let c = self.active_tool_calls@[i];
                &&& self.active_tool_calls@ == before.active_tool_calls@.update(i, c)
                &&& c.bash_output_lines@ == before.active_tool_calls@[i].bash_output_lines@.push(
                    line,
                )
                &&& c == ActiveToolCall {
                    bash_output_lines: c.bash_output_lines,
                    is_bash_streaming: true,
                    ..before.active_tool_calls@[i]
                }
            },
            None => self.same_calls(before),
        }
    }

    /// The task list is the new one, or empty when every item of the new
    /// one is completed.
    pub open spec fn after_todos(&self, before: &AppState, todos: Seq<TodoItem>) -> bool {
        &&& if all_done(todos) {
            self.todos@.len() == 0
        } else {
            self.todos@ == todos
        }
        &&& self.agent_state == before.agent_state
        &&& self.current_thinking_spinner == before.current_thinking_spinner
        &&& self.current_executing_spinner == before.current_executing_spinner
        &&& self.current_retry_status == before.current_retry_status
        &&& self.input_tokens == before.input_tokens
        &&& self.output_tokens == before.output_tokens
        &&& self.same_lines(before)
        &&& self.same_calls(before)
        &&& self.same_interface(before)
    }

    /// The state after `event`, from `before`: dialogs, pop-ups and the rest
    /// of the interface never change, and each event does what the `after_`
    /// predicate it is mapped to says.
    pub open spec fn after_event(&self, before: &AppState, event: AgentEvent) -> bool {
        match event {
            AgentEvent::Thinking => self.after_thinking(before),
            AgentEvent::AssistantThought(content) => self.after_lines(
                before,
                if content@.len() == 0 {
                    Seq::empty()
                } else {
                    text_block(content@)
                },
                None,
            ),
            AgentEvent::ToolCalls(info) => self.after_tool_calls(before, info@),
            AgentEvent::ToolExecutionStarted { tool_call_id } => self.after_calls(
                before,
                calls_updated(
                    before.active_tool_calls@,
                    tool_call_id@,
                    |c: ActiveToolCall| ActiveToolCall { status: ToolCallStatus::Executing, ..c },
                ),
            ),
            AgentEvent::ToolPreview { preview, .. } => self.after_lines(
                before,
                seq![plain_line("\n"@ + preview@)],
                None,
            ),
            AgentEvent::ToolResult { tool_call_id, summary } => self.after_calls(
                before,
                calls_updated(
                    before.active_tool_calls@,
                    tool_call_id@,
                    |c: ActiveToolCall| ActiveToolCall { result_summary: Some(summary), ..c },
                ),
            ),
            AgentEvent::ToolExecutionCompleted { tool_call_id } => self.after_calls(
                before,
                calls_updated(
                    before.active_tool_calls@,
                    tool_call_id@,
                    |c: ActiveToolCall| ActiveToolCall { status: ToolCallStatus::Completed, ..c },
                ),
            ),
            AgentEvent::AllToolsComplete => self.after_all_tools(before),
            AgentEvent::FinalResponse(content) => self.after_lines(
                before,
                text_block(content@),
                Some(AgentState::Idle),
            ),
            AgentEvent::Error(error) => self.after_lines(
                before,
                seq![error_line(error@)],
                Some(AgentState::Idle),
            ),
            AgentEvent::MaxStepsReached(max_steps) => self.after_lines(
                before,
                seq![max_steps_line(max_steps)],
                Some(AgentState::Idle),
            ),
            AgentEvent::UserRejection(names) => self.after_refusal(
                before,
                names@,
                rejected_reason(),
            ),
            AgentEvent::PermissionDenied(names) => self.after_refusal(
                before,
                names@,
                denied_reason(),
            ),
            AgentEvent::RetryEvent { message, is_success, attempt, max_attempts } => self.after_retry(
                before,
                message@,
                is_success,
                attempt,
                max_attempts,
            ),
            AgentEvent::Summarizing => self.after_state(before, AgentState::Summarizing),
            AgentEvent::SummaryComplete => self.after_state(before, AgentState::Idle),
            AgentEvent::SummaryError { error } => self.after_lines(
                before,
                seq![summary_error_line(error@)],
                Some(AgentState::Idle),
            ),
            AgentEvent::TokenUsage { input_tokens, output_tokens } => self.after_tokens(
                before,
                input_tokens,
                output_tokens,
            ),
            AgentEvent::SubagentStepProgress {
                tool_call_id,
                step_number,
                action_type,
                description,
                budget_pct_bits,
            } => self.after_step(
                before,
                tool_call_id@,
                SubagentStepSummary { step_number, action_type, description },
                budget_pct_bits,
            ),
            AgentEvent::SubagentTaskComplete {
                tool_call_id,
                total_tool_uses,
                total_input_tokens,
                total_output_tokens,
            } => self.after_calls(
                before,
                calls_updated(
                    before.active_tool_calls@,
                    tool_call_id@,
                    |c: ActiveToolCall|
                        ActiveToolCall {
                            total_tool_uses: Some(total_tool_uses),
                            total_tokens: Some((total_input_tokens + total_output_tokens) as usize),
                            ..c
                        },
                ),
            ),
            AgentEvent::BashOutputChunk { tool_call_id, output_line, stream_type, line_number } => {
                self.after_output(
                    before,
                    tool_call_id@,
                    BashOutputLine { line_number, content: output_line, stream_type },
                )
            },
            AgentEvent::TodoUpdate { todos } => self.after_todos(before, todos@),
            _ => self.unchanged(before),
        }
    }

    /// Follows one event of the agent (see [`AppState::after_event`]).
    pub fn handle_agent_event(&mut self, event: AgentEvent)
        requires
            event_fits(event),
        ensures
            final(self).after_event(old(self), event),
    {
        match event {
            AgentEvent::Thinking => self.on_thinking(),
            AgentEvent::AssistantThought(content) => self.add_thought(content.as_str()),
            AgentEvent::ToolCalls(tool_call_info) => self.on_tool_calls(&tool_call_info),
            AgentEvent::ToolExecutionStarted { tool_call_id } => {
                self.update_tool_call_status(tool_call_id.as_str(), ToolCallStatus::Executing);
            },
            AgentEvent::ToolPreview { preview, .. } => self.add_tool_preview(preview.as_str()),
            AgentEvent::ToolResult { tool_call_id, summary } => {
                self.set_tool_call_result(tool_call_id.as_str(), summary);
            },
            AgentEvent::ToolExecutionCompleted { tool_call_id } => {
                self.update_tool_call_status(tool_call_id.as_str(), ToolCallStatus::Completed);
            },
            AgentEvent::AllToolsComplete => self.on_all_tools_complete(),
            AgentEvent::FinalResponse(content) => self.on_final_response(content.as_str()),
            AgentEvent::Error(error) => self.on_error(error.as_str()),
            AgentEvent::MaxStepsReached(max_steps) => self.on_max_steps(max_steps),
            AgentEvent::ToolPermissionRequest { .. } => {},
            AgentEvent::ApprovalRequest { .. } => {},
            AgentEvent::UserRejection(rejected_tool_calls) => {
                self.on_refusal(&rejected_tool_calls, "Rejected, tell me what to do instead");
            },
            AgentEvent::PermissionDenied(rejected_tool_calls) => {
                self.on_refusal(&rejected_tool_calls, "Permission denied, tell me what to do instead");
            },
            AgentEvent::Exit => {},
            AgentEvent::ClearConversation => {},
            AgentEvent::DebugMessage(_) => {},
            AgentEvent::RetryEvent { message, is_success, attempt, max_attempts } => {
                self.on_retry(message, is_success, attempt, max_attempts);
            },
            AgentEvent::Summarizing => self.agent_state = AgentState::Summarizing,
            AgentEvent::SummaryComplete => self.agent_state = AgentState::Idle,
            AgentEvent::SummaryError { error } => self.on_summary_error(error.as_str()),
            AgentEvent::TokenUsage { input_tokens, output_tokens } => {
                self.input_tokens = input_tokens;
                self.output_tokens = output_tokens;
            },
            AgentEvent::SubagentStepProgress {
                tool_call_id,
                step_number,
                action_type,
                description,
                budget_pct_bits,
            } => {
                let step = SubagentStepSummary { step_number, action_type, description };
                self.on_step(tool_call_id.as_str(), step, budget_pct_bits);
            },
            AgentEvent::SubagentTaskComplete {
                tool_call_id,
                total_tool_uses,
                total_input_tokens,
                total_output_tokens,
            } => {
                self.on_task_complete(
                    tool_call_id.as_str(),
                    total_tool_uses,
                    total_input_tokens + total_output_tokens,
                );
            },
            AgentEvent::BashOutputChunk { tool_call_id, output_line, stream_type, line_number } => {
                let line = BashOutputLine { line_number, content: output_line, stream_type };
                self.on_output(tool_call_id.as_str(), line);
            },
            AgentEvent::StepStarted => {},
            AgentEvent::TodoUpdate { todos } => self.on_todos(todos),
        }
    }

    fn on_thinking(&mut self)
        ensures
            final(self).after_thinking(old(self)),
    {
        self.agent_state = AgentState::Thinking;
        self.current_thinking_spinner = random_spinner();
    }

    fn on_tool_calls(&mut self, info: &Vec<(String, String)>)
        ensures
            final(self).after_tool_calls(old(self), info@),
    {
        self.agent_state = AgentState::ExecutingTools;
        self.current_executing_spinner = random_spinner();
        self.add_announced_calls(info);
    }

    fn on_all_tools_complete(&mut self)
        ensures
            final(self).after_all_tools(old(self)),
    {
        self.complete_active_tool_calls();
        self.agent_state = AgentState::Thinking;
    }

    fn on_final_response(&mut self, content: &str)
        ensures
            final(self).after_lines(old(self), text_block(content@), Some(AgentState::Idle)),
    {
        self.agent_state = AgentState::Idle;
        self.add_final_response(content);
    }

    fn on_error(&mut self, error: &str)
        ensures
            final(self).after_lines(old(self), seq![error_line(error@)], Some(AgentState::Idle)),
    {
        self.agent_state = AgentState::Idle;
        self.add_error(error);
    }

    fn on_max_steps(&mut self, max_steps: usize)
        ensures
            final(self).after_lines(old(self), seq![max_steps_line(max_steps)], Some(AgentState::Idle)),
    {
        self.agent_state = AgentState::Idle;
        let mut text = chars_of("   Maximum conversation steps (");
        extend(&mut text, decimal_exec(max_steps).as_slice());
        extend_str(&mut text, ") reached, stopping.");
        self.add_message(string_of(text.as_slice()));
    }

    fn on_summary_error(&mut self, error: &str)
        ensures
            final(self).after_lines(old(self), seq![summary_error_line(error@)], Some(AgentState::Idle)),
    {
        self.agent_state = AgentState::Idle;
        let mut text = chars_of("Error summarizing conversation: ");
        extend_str(&mut text, error);
        self.add_message(string_of(text.as_slice()));
    }

    fn on_refusal(&mut self, names: &Vec<String>, reason: &str)
        ensures
            final(self).after_refusal(old(self), names@, reason@),
    {
        self.add_rejections(names, reason);
        self.clear_active_tool_calls();
        self.agent_state = AgentState::Idle;
    }

    fn on_retry(&mut self, message: String, is_success: bool, attempt: usize, max_attempts: usize)
        ensures
            final(self).after_retry(old(self), message@, is_success, attempt, max_attempts),
    {
        if is_success {
            self.current_retry_status = None;
            self.add_status_message(message.as_str());
        } else if attempt < max_attempts {
            self.current_retry_status = Some(message);
        } else {
            self.current_retry_status = None;
            self.agent_state = AgentState::Idle;
            self.add_retry_failure(message.as_str());
        }
    }

    fn on_step(&mut self, tool_call_id: &str, step: SubagentStepSummary, budget_pct_bits: u32)
        ensures
            final(self).after_step(old(self), tool_call_id@, step, budget_pct_bits),
    {
        if let Some(i) = self.call_position(tool_call_id) {
            let ghost c0 = self.active_tool_calls@[i as int];
            self.active_tool_calls[i].is_subagent_task = true;
            self.active_tool_calls[i].budget_pct_bits = Some(budget_pct_bits);
            assert(self.active_tool_calls@ == old(self).active_tool_calls@.update(
                i as int,
                ActiveToolCall { is_subagent_task: true, budget_pct_bits: Some(budget_pct_bits), ..c0 },
            ));
            self.active_tool_calls[i].add_subagent_step(step);
            let ghost c = self.active_tool_calls@[i as int];
            assert(self.active_tool_calls@ =~= old(self).active_tool_calls@.update(i as int, c));
        }
    }

    fn on_task_complete(&mut self, tool_call_id: &str, total_tool_uses: usize, total_tokens: usize)
        ensures
            final(self).after_calls(
                old(self),
                calls_updated(
                    old(self).active_tool_calls@,
                    tool_call_id@,
                    |c: ActiveToolCall|
                        ActiveToolCall {
                            total_tool_uses: Some(total_tool_uses),
                            total_tokens: Some(total_tokens),
                            ..c
                        },
                ),
            ),
    {
        if let Some(i) = self.call_position(tool_call_id) {
            let ghost c0 = self.active_tool_calls@[i as int];
            self.active_tool_calls[i].total_tool_uses = Some(total_tool_uses);
            self.active_tool_calls[i].total_tokens = Some(total_tokens);
            assert(self.active_tool_calls@ =~= old(self).active_tool_calls@.update(
                i as int,
                ActiveToolCall {
                    total_tool_uses: Some(total_tool_uses),
                    total_tokens: Some(total_tokens),
                    ..c0
                },
            ));
        }
    }

    fn on_output(&mut self, tool_call_id: &str, line: BashOutputLine)
        ensures
            final(self).after_output(old(self), tool_call_id@, line),
    {
        if let Some(i) = self.call_position(tool_call_id) {
            self.active_tool_calls[i].add_bash_output_line(line);
        }
    }

    fn on_todos(&mut self, todos: Vec<TodoItem>)
        ensures
            final(self).after_todos(old(self), todos@),
    {
        if all_completed(&todos) {
            self.todos = Vec::new();
        } else {
            self.todos = todos;
        }
    }

    /// Adds a starting call for each announced id and name, in order.
    fn add_announced_calls(&mut self, info: &Vec<(String, String)>)
        ensures
            calls_announced(old(self).active_tool_calls@, info@, final(self).active_tool_calls@),
            final(self).same_lines(old(self)),
            final(self).same_agent(old(self)),
            final(self).same_dialogs(old(self)),
            final(self).same_frame(old(self)),
    {
        let ghost before = old(self).active_tool_calls@;
        let mut i: usize = 0;
        assert(self.active_tool_calls@.take(before.len() as int) =~= before);
        while i < info.len()
            invariant
                i <= info@.len(),
                calls_announced(before, info@.take(i as int), self.active_tool_calls@),
                before == old(self).active_tool_calls@,
                self.same_lines(old(self)),
                self.same_agent(old(self)),
                self.same_dialogs(old(self)),
                self.same_frame(old(self)),
            decreases info@.len() - i,
        {
            let ghost mid = self.active_tool_calls@;
            let (id, name) = &info[i];
            self.add_active_tool_call(id.clone(), name.clone());
            proof {
                let now = self.active_tool_calls@;
                let t = info@.take(i + 1);
                assert(now.take(before.len() as int) =~= before) by {
                    assert(now.drop_last() == mid);
                    assert(mid.take(before.len() as int) == before);
                }
                assert forall|k: int| 0 <= k < t.len() implies is_new_call(
                    #[trigger] now[before.len() + k],
                    t[k].0@,
                    t[k].1@,
                ) by {
                    if k < i {
                        assert(now[before.len() + k] == mid[before.len() + k]);
                        assert(t[k] == info@.take(i as int)[k]);
                    }
                }
            }
            i += 1;
        }
        assert(info@.take(info@.len() as int) =~= info@);
    }

    /// Adds, for each rejected call, its name and then the reason.
    fn add_rejections(&mut self, names: &Vec<String>, reason: &str)
        ensures
            final(self).lines_added(old(self), rejection_lines(names@, reason@)),
            final(self).only_lines_differ(old(self)),
    {
        let mut i: usize = 0;
        proof {
            lemma_capped_push_all_small(self.shown(), status_line(reason@), self.max_messages);
            assert(self.pending() + Seq::empty() =~= self.pending());
            assert(names@.take(0) =~= Seq::<String>::empty());
        }
        while i < names.len()
            invariant
                i <= names@.len(),
                self.lines_added(old(self), rejection_lines(names@.take(i as int), reason@)),
                self.only_lines_differ(old(self)),
            decreases names@.len() - i,
        {
            let ghost s0 = *self;
            self.add_tool_call(names[i].as_str());
            let ghost s1 = *self;
            self.add_status_message(reason);
            proof {
                lemma_lines_added_twice(
                    s0,
                    s1,
                    *self,
                    seq![call_line(names@[i as int]@)],
                    seq![status_line(reason@)],
                );
                lemma_lines_added_twice(
                    *old(self),
                    s0,
                    *self,
                    rejection_lines(names@.take(i as int), reason@),
                    seq![call_line(names@[i as int]@)] + seq![status_line(reason@)],
                );
                let t = names@.take(i + 1);
                assert(t.drop_last() =~= names@.take(i as int));
                assert(seq![call_line(names@[i as int]@)] + seq![status_line(reason@)] =~= seq![
                    call_line(t.last()@),
                    status_line(reason@),
                ]);
            }
            i += 1;
        }
        assert(names@.take(names@.len() as int) =~= names@);
    }
}

} // verus!
