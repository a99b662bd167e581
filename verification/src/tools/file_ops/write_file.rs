//! Writing a file: what the tool reports and how a write is shown.
use crate::text::{chars_of, decimal, decimal_exec, extend, extend_str, find_from, find_from_exec, lines, lines_exec, owned, pad4, pad4_exec, second_piece, second_piece_exec, string_of, take_chars, views};
use crate::tools::file_ops::edit_preview::{push_styled, styled_views, StyledText, TextStyle};
use crate::tools::permissions::ToolPermissionDescriptor;
use std::path::PathBuf;
use vstd::prelude::*;
use vstd::utf8::encode_utf8;

verus! {

/// The text of `s` before the first `sep` (all of `s` when there is none):
/// `s.split(sep).next()`.
pub open spec fn first_piece(s: Seq<char>, sep: Seq<char>) -> Seq<char> {
    match find_from(s, sep, 0) {
        Some(j) => s.take(j),
        None => s,
    }
}

/// What the tool answers after writing `content` to the file shown as
/// `path`: the number of bytes written.
pub open spec fn write_report(content: Seq<char>, path: Seq<char>) -> Seq<char> {
    "Successfully wrote "@ + decimal(encode_utf8(content).len()) + " bytes to "@ + path
}

/// The one-line summary of a write report.
pub open spec fn write_summary(result: Seq<char>) -> Seq<char> {
    match second_piece(result, "wrote "@) {
        Some(p) => {
            let bytes = first_piece(p, " bytes"@);
            if bytes == "0"@ {
                "Created empty file"@
            } else {
                "Wrote "@ + bytes + " bytes"@
            }
        },
        None => "File written successfully"@,
    }
}

/// How a write call is shown.
pub open spec fn write_call_display(path: Option<Seq<char>>) -> Seq<char> {
    match path {
        Some(p) => "Write("@ + p + ")"@,
        None => "Write(?)"@,
    }
}

/// The arguments of a write call: the file, its new content (empty when
/// absent), and whether missing parent directories are created.
pub struct WriteFileArgs {
    pub path: String,
    pub content: Option<String>,
    pub create_dirs: bool,
}

pub struct WriteFileTool {
    working_directory: PathBuf,
}

impl WriteFileTool {
    /// The directory relative paths are written under.
    pub closed spec fn directory(&self) -> PathBuf {
        self.working_directory
    }

    pub fn with_working_directory(working_dir: PathBuf) -> (r: Self)
        ensures
            r.directory() == working_dir,
    {
        Self { working_directory: working_dir }
    }

    /// The directory relative paths are written under.
    pub fn working_directory(&self) -> (r: &PathBuf)
        ensures
            *r == self.directory(),
    {
        &self.working_directory
    }

    pub fn name(&self) -> (r: &'static str)
        ensures
            r@ == "write_file"@,
    {
        "write_file"
    }

    pub fn display_name(&self) -> (r: &'static str)
        ensures
            r@ == "write"@,
    {
        "write"
    }

    /// What the tool answers after a write (see [`write_report`]).
    pub fn report(content: &str, path_display: &str) -> (r: String)
        requires
            encode_utf8(content@).len() <= usize::MAX,
        ensures
            r@ == write_report(content@, path_display@),
    {
        let n = content.len();
        let mut r = chars_of("Successfully wrote ");
        extend(&mut r, decimal_exec(n).as_slice());
        extend_str(&mut r, " bytes to ");
        extend_str(&mut r, path_display);
        string_of(r.as_slice())
    }

    /// How a write call is shown (see [`write_call_display`]).
    pub fn call_display(path: Option<&str>) -> (r: String)
        ensures
            r@ == write_call_display(
                match path {
                    Some(p) => Some(p@),
                    None => None,
                },
            ),
    {
        match path {
            Some(p) => {
                let mut r = chars_of("Write(");
                extend_str(&mut r, p);
                extend_str(&mut r, ")");
                string_of(r.as_slice())
            },
            None => owned("Write(?)"),
        }
    }

    /// How a write call is shown, from its arguments: the path as
    /// [`WriteFileTool::call_display`] shows it, or `Write(?)` when the
    /// arguments did not parse (`None`).
    pub fn format_call_display(&self, args: Option<&WriteFileArgs>) -> (r: String)
        ensures
            r@ == write_call_display(
                match args {
                    Some(a) => Some(a.path@),
                    None => None,
                },
            ),
    {
        match args {
            Some(a) => Self::call_display(Some(a.path.as_str())),
            None => Self::call_display(None),
        }
    }

    /// The one-line summary of a write report (see [`write_summary`]).
    pub fn result_summary(&self, result: &str) -> (r: String)
        ensures
            r@ == write_summary(result@),
    {
        let rs = chars_of(result);
        let sep = chars_of("wrote ");
        proof {
            reveal_strlit("wrote ");
        }
        match second_piece_exec(rs.as_slice(), sep.as_slice()) {
            Some(p) => {
                let bsep = chars_of(" bytes");
                proof {
                    reveal_strlit(" bytes");
                }
                let bytes = match find_from_exec(p.as_slice(), bsep.as_slice(), 0) {
                    Some(j) => {
                        assert(crate::text::occurs_at(p@, bsep@, j as int));
                        take_chars(p.as_slice(), j)
                    },
                    None => p,
                };
                let zero = chars_of("0");
                if crate::text::eq_chars(bytes.as_slice(), zero.as_slice()) {
                    return owned("Created empty file");
                }
                let mut r = chars_of("Wrote ");
                extend(&mut r, bytes.as_slice());
                extend_str(&mut r, " bytes");
                string_of(r.as_slice())
            },
            None => owned("File written successfully"),
        }
    }

    /// The permission request for writing `target`: destructive.
    pub fn describe_permission(&self, target: Option<&str>) -> (r: ToolPermissionDescriptor)
        ensures
            r.kind@ == "write_file"@,
            r.target@ == match target {
                Some(t) => t@,
                None => "*"@,
            },
            !r.read_only,
            r.destructive,
    {
        let t: &str = match target {
            Some(t) => t,
            None => "*",
        };
        ToolPermissionDescriptor {
            kind: owned("write_file"),
            target: owned(t),
            read_only: false,
            destructive: true,
            approval_title: None,
            approval_prompt: None,
            persistent_message: None,
            suggested_pattern: None,
            command_preview: None,
        }
    }
}

/// How many lines of a file a preview shows.
pub const MAX_PREVIEW_LINES: usize = 20;

/// The first `k` lines of `ls`, numbered from 1 and marked with `mark`.
pub open spec fn numbered_lines(ls: Seq<Seq<char>>, k: int, mark: Seq<char>, style: TextStyle) -> Seq<
    (Seq<char>, TextStyle),
>
    decreases k,
{
    if k <= 0 {
        Seq::empty()
    } else {
        numbered_lines(ls, k - 1, mark, style) + seq![
            ("  "@ + pad4(k as nat) + mark + ls[k - 1], style),
            ("\n"@, TextStyle::Plain),
        ]
    }
}

/// The preview of some lines: the first twenty, numbered and marked, then
/// how many more there are.
pub open spec fn line_preview(ls: Seq<Seq<char>>, mark: Seq<char>, style: TextStyle) -> Seq<
    (Seq<char>, TextStyle),
> {
    if ls.len() > 20 {
        numbered_lines(ls, 20, mark, style) + seq![
            ("       ... ("@ + decimal((ls.len() - 20) as nat) + " more lines)"@, TextStyle::Dimmed),
            ("\n"@, TextStyle::Plain),
        ]
    } else {
        numbered_lines(ls, ls.len() as int, mark, style)
    }
}

/// The preview of creating a file with `content` at `path`.
pub open spec fn new_file_preview(content: Seq<char>, path: Seq<char>) -> Seq<(Seq<char>, TextStyle)> {
    let ls = lines(content);
    seq![
        ("Creating new file: "@ + path, TextStyle::BoldBrightCyan),
        ("\n\n"@, TextStyle::Plain),
        ("Size: "@ + decimal(ls.len()) + " lines, "@ + decimal(encode_utf8(content).len()) + " bytes"@, TextStyle::Yellow),
        ("\n\n"@, TextStyle::Plain),
        ("Content"@, TextStyle::Bold),
        (":\n"@, TextStyle::Plain),
    ] + line_preview(ls, " + "@, TextStyle::Green)
}

/// The preview of overwriting a file holding `old` with `new` at `path`:
/// the sizes of both, the first lines of the old content (if any) and of
/// the new.
pub open spec fn overwrite_preview(old: Seq<char>, new: Seq<char>, path: Seq<char>) -> Seq<
    (Seq<char>, TextStyle),
> {
    let ol = lines(old);
    let nl = lines(new);
    seq![
        ("Overwriting file: "@ + path, TextStyle::BoldCyan),
        ("\n\n"@, TextStyle::Plain),
        ("Old: "@ + decimal(ol.len()) + " lines, "@ + decimal(encode_utf8(old).len()) + " bytes"@, TextStyle::Yellow),
        ("\n"@, TextStyle::Plain),
        ("New: "@ + decimal(nl.len()) + " lines, "@ + decimal(encode_utf8(new).len()) + " bytes"@, TextStyle::Yellow),
        ("\n\n"@, TextStyle::Plain),
    ] + (if ol.len() > 0 {
        seq![("Old content (first lines)"@, TextStyle::Bold), (":\n"@, TextStyle::Plain)]
            + line_preview(ol, " - "@, TextStyle::BrightRed) + seq![("\n"@, TextStyle::Plain)]
    } else {
        Seq::empty()
    }) + seq![("New content (first lines)"@, TextStyle::Bold), (":\n"@, TextStyle::Plain)]
        + line_preview(nl, " + "@, TextStyle::Green)
}

/// Adds the preview of some lines (see [`line_preview`]).
fn push_line_preview(out: &mut Vec<StyledText>, ls: &Vec<Vec<char>>, mark: &str, style: TextStyle)
    ensures
        styled_views(final(out)@) == styled_views(old(out)@) + line_preview(views(ls@), mark@, style),
{
    let ghost lv = views(ls@);
    let ghost start = styled_views(out@);
    let shown: usize = if ls.len() > MAX_PREVIEW_LINES {
        MAX_PREVIEW_LINES
    } else {
        ls.len()
    };
    let mut i: usize = 0;
    while i < shown
        invariant
            i <= shown <= ls@.len(),
            lv == views(ls@),
            styled_views(out@) == start + numbered_lines(lv, i as int, mark@, style),
        decreases shown - i,
    {
        let mut line = chars_of("  ");
        extend(&mut line, pad4_exec(i + 1).as_slice());
        extend_str(&mut line, mark);
        extend(&mut line, ls[i].as_slice());
        let ghost before = styled_views(out@);
        push_styled(out, line, style);
        push_styled(out, chars_of("\n"), TextStyle::Plain);
        assert(styled_views(out@) =~= start + numbered_lines(lv, i + 1, mark@, style));
        i += 1;
    }
    if ls.len() > MAX_PREVIEW_LINES {
        let mut more = chars_of("       ... (");
        extend(&mut more, decimal_exec(ls.len() - MAX_PREVIEW_LINES).as_slice());
        extend_str(&mut more, " more lines)");
        push_styled(out, more, TextStyle::Dimmed);
        push_styled(out, chars_of("\n"), TextStyle::Plain);
        assert(styled_views(out@) =~= start + line_preview(lv, mark@, style));
    } else {
        assert(styled_views(out@) =~= start + line_preview(lv, mark@, style));
    }
}

/// `label`, a decimal line count, `" lines, "`, a byte count and `" bytes"`.
fn size_line(label: &str, n_lines: usize, n_bytes: usize) -> (r: Vec<char>)
    ensures
        r@ == label@ + decimal(n_lines as nat) + " lines, "@ + decimal(n_bytes as nat) + " bytes"@,
{
    let mut t = chars_of(label);
    extend(&mut t, decimal_exec(n_lines).as_slice());
    extend_str(&mut t, " lines, ");
    extend(&mut t, decimal_exec(n_bytes).as_slice());
    extend_str(&mut t, " bytes");
    t
}

impl WriteFileTool {
    /// The preview of creating a file (see [`new_file_preview`]).
    pub fn generate_new_file_preview(&self, content: &str, path: &str) -> (r: Vec<StyledText>)
        requires
            encode_utf8(content@).len() <= usize::MAX,
        ensures
            styled_views(r@) == new_file_preview(content@, path@),
    {
        let ls = lines_exec(chars_of(content).as_slice());
        let mut out: Vec<StyledText> = Vec::new();
        let mut title = chars_of("Creating new file: ");
        extend_str(&mut title, path);
        push_styled(&mut out, title, TextStyle::BoldBrightCyan);
        push_styled(&mut out, chars_of("\n\n"), TextStyle::Plain);
        push_styled(&mut out, size_line("Size: ", ls.len(), content.len()), TextStyle::Yellow);
        push_styled(&mut out, chars_of("\n\n"), TextStyle::Plain);
        push_styled(&mut out, chars_of("Content"), TextStyle::Bold);
        push_styled(&mut out, chars_of(":\n"), TextStyle::Plain);
        let ghost head = styled_views(out@);
        push_line_preview(&mut out, &ls, " + ", TextStyle::Green);
        assert(styled_views(out@) =~= new_file_preview(content@, path@));
        out
    }

    /// The preview of overwriting a file (see [`overwrite_preview`]).
    pub fn generate_diff(&self, old_content: &str, new_content: &str, path: &str) -> (r: Vec<StyledText>)
        requires
            encode_utf8(old_content@).len() <= usize::MAX,
            encode_utf8(new_content@).len() <= usize::MAX,
        ensures
            styled_views(r@) == overwrite_preview(old_content@, new_content@, path@),
    {
        let ol = lines_exec(chars_of(old_content).as_slice());
        let nl = lines_exec(chars_of(new_content).as_slice());
        let mut out: Vec<StyledText> = Vec::new();
        let mut title = chars_of("Overwriting file: ");
        extend_str(&mut title, path);
        push_styled(&mut out, title, TextStyle::BoldCyan);
        push_styled(&mut out, chars_of("\n\n"), TextStyle::Plain);
        push_styled(&mut out, size_line("Old: ", ol.len(), old_content.len()), TextStyle::Yellow);
        push_styled(&mut out, chars_of("\n"), TextStyle::Plain);
        push_styled(&mut out, size_line("New: ", nl.len(), new_content.len()), TextStyle::Yellow);
        push_styled(&mut out, chars_of("\n\n"), TextStyle::Plain);
        let ghost head = styled_views(out@);
        if ol.len() > 0 {
            push_styled(&mut out, chars_of("Old content (first lines)"), TextStyle::Bold);
            push_styled(&mut out, chars_of(":\n"), TextStyle::Plain);
            push_line_preview(&mut out, &ol, " - ", TextStyle::BrightRed);
            push_styled(&mut out, chars_of("\n"), TextStyle::Plain);
        }
        let ghost mid = styled_views(out@);
        push_styled(&mut out, chars_of("New content (first lines)"), TextStyle::Bold);
        push_styled(&mut out, chars_of(":\n"), TextStyle::Plain);
        push_line_preview(&mut out, &nl, " + ", TextStyle::Green);
        assert(styled_views(out@) =~= overwrite_preview(old_content@, new_content@, path@));
        out
    }
}

} // verus!
