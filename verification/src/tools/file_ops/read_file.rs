//! Reading a file, whole or by a range of lines.
use crate::text::{chars_of, decimal, decimal_exec, extend, extend_str, join, join_chars, lines, lines_exec, owned, slice_chars, string_of, views};
use crate::tools::error::ToolError;
use std::path::PathBuf;
use vstd::prelude::*;

verus! {

/// The complaint about a start line outside the file.
pub open spec fn bad_start_line(start: usize, n: nat) -> Seq<char> {
    "Invalid start_line: "@ + decimal(start as nat) + " (file has "@ + decimal(n) + " lines)"@
}

/// The lines of `content` a read returns, joined by newlines: from
/// `start_line` (counted from 1) to `end_line` when both are given, from
/// `start_line` to the end when only it is given, the whole content
/// otherwise; or the complaint about the range.
pub open spec fn line_selection(content: Seq<char>, start: Option<usize>, end: Option<usize>) -> Result<
    Seq<char>,
    Seq<char>,
> {
    let ls = lines(content);
    let n = ls.len();
    match (start, end) {
        (Some(s), Some(e)) => if s == 0 || s > n {
            Err(bad_start_line(s, n))
        } else if e > n {
            Err("Invalid end_line: "@ + decimal(e as nat) + " (file has "@ + decimal(n) + " lines)"@)
        } else if s > e {
            Err(
                "start_line ("@ + decimal(s as nat) + ") cannot be greater than end_line ("@
                    + decimal(e as nat) + ")"@,
            )
        } else {
            Ok(join(ls.subrange(s - 1, e as int), "\n"@))
        },
        (Some(s), None) => if s == 0 || s > n {
            Err(bad_start_line(s, n))
        } else {
            Ok(join(ls.skip(s - 1), "\n"@))
        },
        _ => Ok(content),
    }
}

/// How a read call is shown.
pub open spec fn read_call_display(path: Option<Seq<char>>) -> Seq<char> {
    match path {
        Some(p) => "Read("@ + p + ")"@,
        None => "Read(?)"@,
    }
}

/// The arguments of a read call: the file, and the first and last line
/// (numbered from 1) when only a range is read.
pub struct ReadFileArgs {
    pub path: String,
    pub start_line: Option<usize>,
    pub end_line: Option<usize>,
}

pub struct ReadFileTool {
    working_directory: PathBuf,
}

/// `Invalid start_line: ...` for a start line outside the file.
fn bad_start_message(start: usize, n: usize) -> (r: String)
    ensures
        r@ == bad_start_line(start, n as nat),
{
    let mut m = chars_of("Invalid start_line: ");
    extend(&mut m, decimal_exec(start).as_slice());
    extend_str(&mut m, " (file has ");
    extend(&mut m, decimal_exec(n).as_slice());
    extend_str(&mut m, " lines)");
    string_of(m.as_slice())
}

/// Lines `a..b` of `ls`, joined by newlines.
fn join_range(ls: &Vec<Vec<char>>, a: usize, b: usize) -> (r: String)
    requires
        a <= b <= ls@.len(),
    ensures
        r@ == join(views(ls@).subrange(a as int, b as int), "\n"@),
{
    let mut part: Vec<Vec<char>> = Vec::new();
    let mut i = a;
    while i < b
        invariant
            a <= i <= b <= ls@.len(),
            views(part@) == views(ls@).subrange(a as int, i as int),
        decreases b - i,
    {
        let ghost before = views(part@);
        part.push(ls[i].clone());
        assert(views(part@) =~= before.push(views(ls@)[i as int]));
        assert(views(ls@).subrange(a as int, i + 1) =~= views(ls@).subrange(a as int, i as int).push(
            views(ls@)[i as int],
        ));
        i += 1;
    }
    let sep = chars_of("\n");
    string_of(join_chars(&part, sep.as_slice()).as_slice())
}

impl ReadFileTool {
    /// The directory relative paths are read from.
    pub closed spec fn directory(&self) -> PathBuf {
        self.working_directory
    }

    pub fn with_working_directory(working_dir: PathBuf) -> (r: Self)
        ensures
            r.directory() == working_dir,
    {
        Self { working_directory: working_dir }
    }

    /// The directory relative paths are read from.
    pub fn working_directory(&self) -> (r: &PathBuf)
        ensures
            *r == self.directory(),
    {
        &self.working_directory
    }

    pub fn tool_name(&self) -> (r: &'static str)
        ensures
            r@ == "read_file"@,
    {
        "read_file"
    }

    /// The part of a file's content a read returns (see [`line_selection`]);
    /// a bad range is an invalid-arguments error of `read_file`.
    pub fn select_lines(content: &str, start_line: Option<usize>, end_line: Option<usize>) -> (r:
        Result<String, ToolError>)
        ensures
            match line_selection(content@, start_line, end_line) {
                Ok(t) => r is Ok && r->Ok_0@ == t,
                Err(m) => r matches Err(ToolError::InvalidArguments { tool, message }) && tool@
                    == "read_file"@ && message@ == m,
            },
    {
        match start_line {
            None => Ok(owned(content)),
            Some(start) => {
                let cs = chars_of(content);
                let ls = lines_exec(cs.as_slice());
                let n = ls.len();
                if start == 0 || start > n {
                    return Err(
                        ToolError::InvalidArguments {
                            tool: owned("read_file"),
                            message: bad_start_message(start, n),
                        },
                    );
                }
                match end_line {
                    Some(end) => {
                        if end > n {
                            let mut m = chars_of("Invalid end_line: ");
                            extend(&mut m, decimal_exec(end).as_slice());
                            extend_str(&mut m, " (file has ");
                            extend(&mut m, decimal_exec(n).as_slice());
                            extend_str(&mut m, " lines)");
                            return Err(
                                ToolError::InvalidArguments {
                                    tool: owned("read_file"),
                                    message: string_of(m.as_slice()),
                                },
                            );
                        }
                        if start > end {
                            let mut m = chars_of("start_line (");
                            extend(&mut m, decimal_exec(start).as_slice());
                            extend_str(&mut m, ") cannot be greater than end_line (");
                            extend(&mut m, decimal_exec(end).as_slice());
                            extend_str(&mut m, ")");
                            return Err(
                                ToolError::InvalidArguments {
                                    tool: owned("read_file"),
                                    message: string_of(m.as_slice()),
                                },
                            );
                        }
                        Ok(join_range(&ls, start - 1, end))
                    },
                    None => {
                        let r = join_range(&ls, start - 1, n);
                        assert(views(ls@).subrange(start - 1, n as int) =~= views(ls@).skip(
                            start - 1,
                        ));
                        Ok(r)
                    },
                }
            },
        }
    }

    /// How a read call is shown (see [`read_call_display`]).
    pub fn call_display(path: Option<&str>) -> (r: String)
        ensures
            r@ == read_call_display(
                match path {
                    Some(p) => Some(p@),
                    None => None,
                },
            ),
    {
        match path {
            Some(p) => {
                let mut r = chars_of("Read(");
                extend_str(&mut r, p);
                extend_str(&mut r, ")");
                string_of(r.as_slice())
            },
            None => owned("Read(?)"),
        }
    }

    /// How a read call is shown, from its arguments: the path as
    /// [`ReadFileTool::call_display`] shows it, or `Read(?)` when the
    /// arguments did not parse (`None`).
    pub fn format_call_display(&self, args: Option<&ReadFileArgs>) -> (r: String)
        ensures
            r@ == read_call_display(
                match args {
                    Some(a) => Some(a.path@),
                    None => None,
                },
            ),
    {
        match args {
            Some(a) => Self::call_display(Some(a.path.as_str())),
            None => Self::call_display(None),
        }
    }

    /// `Read N lines`, for the number of lines read.
    pub fn result_summary(&self, result: &str) -> (r: String)
        ensures
            r@ == "Read "@ + decimal(lines(result@).len()) + " lines"@,
    {
        let cs = chars_of(result);
        let ls = lines_exec(cs.as_slice());
        let mut r = chars_of("Read ");
        extend(&mut r, decimal_exec(ls.len()).as_slice());
        extend_str(&mut r, " lines");
        string_of(r.as_slice())
    }
}

} // verus!
