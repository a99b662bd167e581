//! What the agent reports to the interface while it works on a request.
use crate::tools::permissions::ToolPermissionDescriptor;
use crate::tools::todo_write::TodoItem;
use vstd::prelude::*;

verus! {

/// An event of the agent, with what the interface reads of it. Token
/// pressure warnings carry ratios and are handled where floating point is
/// available; the cost of a model call likewise.
pub enum AgentEvent {
    /// The model is working on the next step.
    Thinking,
    /// A thought the model shared before acting.
    AssistantThought(String),
    /// The tool calls of the step: their ids and how they are shown.
    ToolCalls(Vec<(String, String)>),
    ToolExecutionStarted { tool_call_id: String },
    /// What a tool call is about to do.
    ToolPreview { tool_call_id: String, preview: String },
    /// The one-line result of a tool call.
    ToolResult { tool_call_id: String, summary: String },
    ToolExecutionCompleted { tool_call_id: String },
    /// Every tool call of the step has finished.
    AllToolsComplete,
    FinalResponse(String),
    Error(String),
    /// The conversation reached its step limit.
    MaxStepsReached(usize),
    /// A tool call waits for permission: what the tool asks, and the id the
    /// answer is sent back under. The event loop opens the dialog.
    ToolPermissionRequest { descriptor: ToolPermissionDescriptor, request_id: String },
    /// A tool call waits for approval. The event loop opens the dialog.
    ApprovalRequest { tool_call_id: String, tool_name: String },
    /// The user rejected these tool calls (by how they are shown).
    UserRejection(Vec<String>),
    /// Permission was refused for these tool calls (by how they are shown).
    PermissionDenied(Vec<String>),
    Exit,
    ClearConversation,
    DebugMessage(String),
    /// A model call is retried, has succeeded on a retry, or has given up.
    RetryEvent { message: String, is_success: bool, attempt: usize, max_attempts: usize },
    Summarizing,
    SummaryComplete,
    SummaryError { error: String },
    /// The token counts of the latest model call.
    TokenUsage { input_tokens: usize, output_tokens: usize },
    /// A step taken by a sub-agent; its budget share is carried as the bits
    /// of an `f32`.
    SubagentStepProgress {
        tool_call_id: String,
        step_number: usize,
        action_type: String,
        description: String,
        budget_pct_bits: u32,
    },
    /// A sub-agent has finished, with its totals.
    SubagentTaskComplete {
        tool_call_id: String,
        total_tool_uses: usize,
        total_input_tokens: usize,
        total_output_tokens: usize,
    },
    /// A line of output of a running shell command.
    BashOutputChunk {
        tool_call_id: String,
        output_line: String,
        stream_type: String,
        line_number: usize,
    },
    StepStarted,
    /// The task list as the agent now keeps it.
    TodoUpdate { todos: Vec<TodoItem> },
}

} // verus!
