pub mod common;
pub mod list_directory;
pub mod read_file;

pub use list_directory::ListDirectoryTool;
pub use read_file::ReadFileTool;
pub mod write_file;
pub use write_file::WriteFileTool;
pub mod edit_file;
pub use edit_file::EditFileTool;
pub mod edit_preview;
