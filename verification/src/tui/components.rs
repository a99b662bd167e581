pub mod active_tool_calls;
pub mod permission_dialog;
pub mod status_bar;
