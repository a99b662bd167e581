//! The sets of tools an agent is given: the read-only set for analysis, and
//! the set a sub-agent works with, which has no task tool, so a sub-agent
//! cannot start sub-agents of its own.
use crate::tools::file_ops::{EditFileTool, ListDirectoryTool, ReadFileTool, WriteFileTool};
use crate::tools::glob::GlobTool;
use crate::tools::grep::GrepTool;
use crate::tools::guarded_bash::BashTool;
use crate::tools::paths::path_owned;
use std::path::PathBuf;
use vstd::prelude::*;

verus! {

/// One tool handed to an agent.
pub enum ProvidedTool {
    ReadFile(ReadFileTool),
    WriteFile(WriteFileTool),
    EditFile(EditFileTool),
    ListDirectory(ListDirectoryTool),
    Bash(BashTool),
    Glob(GlobTool),
    Grep(GrepTool),
}

impl ProvidedTool {
    /// The name the agent calls the tool by.
    pub open spec fn tool_name(&self) -> Seq<char> {
        match self {
            ProvidedTool::ReadFile(_) => "read_file"@,
            ProvidedTool::WriteFile(_) => "write_file"@,
            ProvidedTool::EditFile(_) => "edit_file"@,
            ProvidedTool::ListDirectory(_) => "list_directory"@,
            ProvidedTool::Bash(_) => "bash"@,
            ProvidedTool::Glob(_) => "glob"@,
            ProvidedTool::Grep(_) => "grep"@,
        }
    }

    /// The directory the tool works in, for the tools that have one.
    pub open spec fn tool_directory(&self) -> Option<PathBuf> {
        match self {
            ProvidedTool::ReadFile(t) => Some(t.directory()),
            ProvidedTool::WriteFile(t) => Some(t.directory()),
            ProvidedTool::EditFile(t) => Some(t.directory()),
            ProvidedTool::ListDirectory(t) => Some(t.directory()),
            ProvidedTool::Bash(t) => Some(t.directory()),
            ProvidedTool::Glob(_) => None,
            ProvidedTool::Grep(t) => Some(t.directory()),
        }
    }

    /// The name the agent calls the tool by.
    pub fn name(&self) -> (r: &'static str)
        ensures
            r@ == self.tool_name(),
    {
        match self {
            ProvidedTool::ReadFile(_) => "read_file",
            ProvidedTool::WriteFile(_) => "write_file",
            ProvidedTool::EditFile(_) => "edit_file",
            ProvidedTool::ListDirectory(_) => "list_directory",
            ProvidedTool::Bash(_) => "bash",
            ProvidedTool::Glob(_) => "glob",
            ProvidedTool::Grep(_) => "grep",
        }
    }
}

/// The names of a list of tools.
pub open spec fn tool_names(v: Seq<ProvidedTool>) -> Seq<Seq<char>> {
    Seq::new(v.len(), |i: int| v[i].tool_name())
}

/// The tools that only read, for analysis.
pub struct ReadOnlyToolProvider {
    working_directory: PathBuf,
}

impl ReadOnlyToolProvider {
    /// The directory the file tools work in.
    pub closed spec fn directory(&self) -> PathBuf {
        self.working_directory
    }

    pub fn new(working_directory: PathBuf) -> (r: Self)
        ensures
            r.directory() == working_directory,
    {
        Self { working_directory }
    }

    pub fn provider_name(&self) -> (r: &'static str)
        ensures
            r@ == "readonly"@,
    {
        "readonly"
    }

    /// Reading a file, listing a directory, glob and grep: the file tools in
    /// a copy of the provider's directory, grep in `current_dir`, the
    /// directory the program runs in (grep's default). A copied path has no
    /// view here, so the file tools' directory is not claimed.
    pub fn provide_tools(&self, current_dir: PathBuf) -> (r: Vec<ProvidedTool>)
        ensures
            tool_names(r@) == seq!["read_file"@, "list_directory"@, "glob"@, "grep"@],
            r@[3].tool_directory() == Some(current_dir),
    {
        let mut r: Vec<ProvidedTool> = Vec::new();
        r.push(ProvidedTool::ReadFile(ReadFileTool::with_working_directory(path_owned(self.working_directory.as_path()))));
        r.push(ProvidedTool::ListDirectory(ListDirectoryTool::with_working_directory(path_owned(self.working_directory.as_path()))));
        r.push(ProvidedTool::Glob(GlobTool::new()));
        r.push(ProvidedTool::Grep(GrepTool::with_working_directory(current_dir)));
        assert(tool_names(r@) =~= seq!["read_file"@, "list_directory"@, "glob"@, "grep"@]);
        r
    }
}

/// The tools a sub-agent works with: those of the main agent but the task
/// tool, so that a sub-agent starts no sub-agents.
pub struct SubAgentToolProvider {
    working_directory: PathBuf,
}

impl SubAgentToolProvider {
    /// The directory the tools work in.
    pub closed spec fn directory(&self) -> PathBuf {
        self.working_directory
    }

    pub fn new(working_directory: PathBuf) -> (r: Self)
        ensures
            r.directory() == working_directory,
    {
        Self { working_directory }
    }

    pub fn provider_name(&self) -> (r: &'static str)
        ensures
            r@ == "subagent"@,
    {
        "subagent"
    }

    /// Reading, writing and editing files, listing a directory and running
    /// commands, each in a copy of the provider's directory (a copied path
    /// has no view here, so the directory is not claimed); the command tool
    /// refuses dangerous commands.
    pub fn provide_tools(&self) -> (r: Vec<ProvidedTool>)
        ensures
            tool_names(r@) == seq!["read_file"@, "write_file"@, "edit_file"@, "list_directory"@, "bash"@],
    {
        let mut r: Vec<ProvidedTool> = Vec::new();
        r.push(ProvidedTool::ReadFile(ReadFileTool::with_working_directory(path_owned(self.working_directory.as_path()))));
        r.push(ProvidedTool::WriteFile(WriteFileTool::with_working_directory(path_owned(self.working_directory.as_path()))));
        r.push(ProvidedTool::EditFile(EditFileTool::with_working_directory(path_owned(self.working_directory.as_path()))));
        r.push(ProvidedTool::ListDirectory(ListDirectoryTool::with_working_directory(path_owned(self.working_directory.as_path()))));
        r.push(ProvidedTool::Bash(BashTool::with_working_directory(path_owned(self.working_directory.as_path()))));
        assert(tool_names(r@) =~= seq!["read_file"@, "write_file"@, "edit_file"@, "list_directory"@, "bash"@]);
        r
    }
}

} // verus!
