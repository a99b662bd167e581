//! The bash tool: runs commands in a project directory under a timeout, and
//! describes them for the permission dialog.
use crate::text::{
    chars_of, contains, decimal, extend, extend_str, first_line, first_line_exec, lines,
    lines_exec, owned, sanitize_text, sanitized, second_piece, second_piece_exec,
    starts_with, starts_with_chars, str_contains, string_of, take_chars,
};
use crate::tools::bash::output::{command_report, format_command_output};
use crate::tools::bash::pattern_registry::{registry_analysis, BashCommandPatternRegistry};
use crate::tools::json::opt_view;
use crate::tools::permissions::ToolPermissionDescriptor;
use std::path::PathBuf;
use vstd::prelude::*;

verus! {

/// How a call of the tool is shown: the command, cut to 75 characters, or a
/// question mark when the arguments hold no command.
pub open spec fn bash_call_display(command: Option<Seq<char>>) -> Seq<char> {
    match command {
        Some(c) => if c.len() > 75 {
            "Bash("@ + c.take(75) + "...)"@
        } else {
            "Bash("@ + c + ")"@
        },
        None => "Bash(?)"@,
    }
}

/// The first line of standard output in a command report (empty when the
/// report has no output section).
pub open spec fn first_stdout_line(result: Seq<char>) -> Seq<char> {
    match second_piece(result, "STDOUT:\n"@) {
        Some(p) => first_line(p),
        None => Seq::empty(),
    }
}

/// The one-line summary of a command report.
pub open spec fn bash_result_summary(result: Seq<char>) -> Seq<char> {
    if contains(result, "Exit code: 0"@) {
        let line = first_stdout_line(result);
        if line.len() > 0 && !starts_with(line, "Exit code:"@) {
            if line.len() > 50 {
                line.take(50) + "..."@
            } else {
                line
            }
        } else {
            "Command completed successfully"@
        }
    } else if contains(result, "Command failed"@) {
        "Command failed with non-zero exit code"@
    } else {
        "Command completed ("@ + decimal(lines(result).len()) + " lines output)"@
    }
}

/// The arguments of a bash call: the command, and a timeout in seconds that
/// replaces the tool's own for this run.
pub struct BashArgs {
    pub command: String,
    pub timeout_override: Option<u64>,
}

/// Tool for executing bash commands safely
pub struct BashTool {
    working_directory: PathBuf,
    timeout_seconds: u64,
}

impl BashTool {
    /// The directory commands run in.
    pub closed spec fn directory(&self) -> PathBuf {
        self.working_directory
    }

    /// Seconds a command may run before it is stopped.
    pub closed spec fn timeout(&self) -> u64 {
        self.timeout_seconds
    }

    /// A tool running commands in `working_directory` with the default
    /// timeout of 30 seconds (what `new` gives for the current directory).
    pub fn new_in(working_directory: PathBuf) -> (r: Self)
        ensures
            r.directory() == working_directory,
            r.timeout() == 30,
    {
        Self { working_directory, timeout_seconds: 30 }
    }

    pub fn with_working_directory(self, working_dir: PathBuf) -> (r: Self)
        ensures
            r.directory() == working_dir,
            r.timeout() == self.timeout(),
    {
        let mut s = self;
        s.working_directory = working_dir;
        s
    }

    pub fn with_timeout(self, timeout_seconds: u64) -> (r: Self)
        ensures
            r.timeout() == timeout_seconds,
            r.directory() == self.directory(),
    {
        let mut s = self;
        s.timeout_seconds = timeout_seconds;
        s
    }

    /// The directory commands run in.
    pub fn working_directory(&self) -> (r: &PathBuf)
        ensures
            *r == self.directory(),
    {
        &self.working_directory
    }

    /// The timeout for one run: the override when given, else the tool's own.
    pub fn timeout_for(&self, timeout_override: Option<u64>) -> (r: u64)
        ensures
            r == match timeout_override {
                Some(t) => t,
                None => self.timeout(),
            },
    {
        match timeout_override {
            Some(t) => t,
            None => self.timeout_seconds,
        }
    }

    /// Sanitize command to prevent some basic injection attempts
    /// Note: This is NOT sufficient for security - dangerous commands should be blocked entirely
    pub fn sanitize_command(&self, command: &str) -> (r: String)
        ensures
            r@ == sanitized(command@),
    {
        sanitize_text(command)
    }

    /// The report for a finished run of a command.
    pub fn report(&self, stdout: &str, stderr: &str, exit_code: Option<i32>, success: bool) -> (r:
        String)
        ensures
            r@ == command_report(stdout@, stderr@, exit_code, success),
    {
        format_command_output(stdout, stderr, exit_code, success)
    }

    pub fn name(&self) -> (r: &'static str)
        ensures
            r@ == "bash"@,
    {
        "bash"
    }

    pub fn display_name(&self) -> (r: &'static str)
        ensures
            r@ == "bash"@,
    {
        "bash"
    }

    /// How a call with the given command is shown (see [`bash_call_display`]).
    pub fn call_display(command: Option<&str>) -> (r: String)
        ensures
            r@ == bash_call_display(
                match command {
                    Some(c) => Some(c@),
                    None => None,
                },
            ),
    {
        match command {
            Some(c) => {
                let cs = chars_of(c);
                let mut r = chars_of("Bash(");
                if cs.len() > 75 {
                    let head = take_chars(cs.as_slice(), 75);
                    extend(&mut r, head.as_slice());
                    extend_str(&mut r, "...)");
                } else {
                    extend(&mut r, cs.as_slice());
                    extend_str(&mut r, ")");
                }
                string_of(r.as_slice())
            },
            None => owned("Bash(?)"),
        }
    }

    /// How a call is shown, from its arguments: the command as
    /// [`BashTool::call_display`] shows it, or `Bash(?)` when the arguments
    /// did not parse (`None`).
    pub fn format_call_display(&self, args: Option<&BashArgs>) -> (r: String)
        ensures
            r@ == bash_call_display(
                match args {
                    Some(a) => Some(a.command@),
                    None => None,
                },
            ),
    {
        match args {
            Some(a) => Self::call_display(Some(a.command.as_str())),
            None => Self::call_display(None),
        }
    }

    /// The one-line summary of a command report (see [`bash_result_summary`]).
    pub fn result_summary(&self, result: &str) -> (r: String)
        ensures
            r@ == bash_result_summary(result@),
    {
        if str_contains(result, "Exit code: 0") {
            let rs = chars_of(result);
            let sep = chars_of("STDOUT:\n");
            proof {
                reveal_strlit("STDOUT:\n");
            }
            let line = match second_piece_exec(rs.as_slice(), sep.as_slice()) {
                Some(p) => first_line_exec(p.as_slice()),
                None => Vec::new(),
            };
            assert(line@ == first_stdout_line(result@));
            let exit = chars_of("Exit code:");
            if line.len() > 0 && !starts_with_chars(line.as_slice(), exit.as_slice()) {
                if line.len() > 50 {
                    let mut t = take_chars(line.as_slice(), 50);
                    extend_str(&mut t, "...");
                    return string_of(t.as_slice());
                }
                return string_of(line.as_slice());
            }
            owned("Command completed successfully")
        } else if str_contains(result, "Command failed") {
            owned("Command failed with non-zero exit code")
        } else {
            let rs = chars_of(result);
            let ls = lines_exec(rs.as_slice());
            let mut t = chars_of("Command completed (");
            let n = crate::text::decimal_exec(ls.len());
            extend(&mut t, n.as_slice());
            extend_str(&mut t, " lines output)");
            string_of(t.as_slice())
        }
    }

    /// The permission request for running `target` (any command when none is
    /// given): read-only exactly when the command analysis calls it safe,
    /// with the analysis's suggested rule and its "don't ask again" text.
    pub fn describe_permission(&self, target: Option<&str>) -> (r: ToolPermissionDescriptor)
        ensures
            ({
                let t = match target {
                    Some(t) => t@,
                    None => "*"@,
                };
                &&& r.kind@ == "bash"@
                &&& r.target@ == t
                &&& r.read_only == registry_analysis(t).safe
                &&& !r.destructive
                &&& opt_view(r.approval_title) == Some(" Bash Command "@)
                &&& opt_view(r.approval_prompt) == Some("Can I run this bash command?"@)
                &&& opt_view(r.command_preview) == Some(t)
                &&& opt_view(r.persistent_message) == Some(registry_analysis(t).persistent_message)
                &&& opt_view(r.suggested_pattern) == Some(registry_analysis(t).pattern)
            }),
    {
        let target_str: &str = match target {
            Some(t) => t,
            None => "*",
        };
        let registry = BashCommandPatternRegistry::new();
        let pattern_result = registry.analyze_command(target_str);
        ToolPermissionDescriptor {
            kind: owned("bash"),
            target: owned(target_str),
            read_only: pattern_result.safe,
            destructive: false,
            approval_title: Some(owned(" Bash Command ")),
            approval_prompt: Some(owned("Can I run this bash command?")),
            persistent_message: Some(pattern_result.persistent_message),
            suggested_pattern: Some(pattern_result.pattern),
            command_preview: Some(owned(target_str)),
        }
    }
}

} // verus!
