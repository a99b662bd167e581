pub mod bash;
pub mod bash_blacklist;
pub mod glob;
pub mod grep;
pub mod guarded_bash;
pub mod json;
pub mod paths;
pub mod permissions;
pub mod providers;
pub mod todo_state;
pub mod todo_write;
pub mod error;
pub mod file_ops;
