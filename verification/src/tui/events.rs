//! What the agent is doing, as the interface shows it.
use vstd::prelude::*;

verus! {

#[derive(Debug, Clone, Copy, PartialEq, Eq, Structural)]
pub enum AgentState {
    Idle,
    Thinking,
    ExecutingTools,
    Summarizing,
}

} // verus!
