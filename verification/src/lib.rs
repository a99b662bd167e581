pub mod agent;
pub mod text;
pub mod tools;
pub mod tui;
