//! The text a bash tool hands back for a finished command.
use crate::text::{chars_of, extend, extend_str, signed_decimal, signed_decimal_exec, string_of};
use vstd::prelude::*;

verus! {

/// A labelled block of captured output: nothing for empty output, otherwise
/// the label, the output, and a closing newline if the output lacks one.
pub open spec fn section(label: Seq<char>, text: Seq<char>) -> Seq<char> {
    if text.len() == 0 {
        Seq::empty()
    } else if text.last() == '\n' {
        label + text
    } else {
        label + text.push('\n')
    }
}

/// The report for a finished command: its standard output and error
/// sections (or a note that there was no output), its exit code (`-1` when
/// the process gave none), and a warning when it did not succeed.
pub open spec fn command_report(
    stdout: Seq<char>,
    stderr: Seq<char>,
    exit_code: Option<i32>,
    success: bool,
) -> Seq<char> {
    let body = section("STDOUT:\n"@, stdout) + section("STDERR:\n"@, stderr);
    let shown = if body.len() == 0 {
        "(command executed successfully with no output)\n"@
    } else {
        body
    };
    let code: int = match exit_code {
        Some(c) => c as int,
        None => -1,
    };
    let verdict = if success {
        Seq::empty()
    } else {
        "⚠️  Command failed with non-zero exit code\n"@
    };
    shown + "Exit code: "@ + signed_decimal(code) + "\n"@ + verdict
}

/// Captured lines, each followed by a newline.
pub open spec fn terminated_lines(lines: Seq<Seq<char>>) -> Seq<char>
    decreases lines.len(),
{
    if lines.len() == 0 {
        Seq::empty()
    } else {
        terminated_lines(lines.drop_last()) + lines.last() + seq!['\n']
    }
}

/// Appends a labelled output block to `r`.
fn push_section(r: &mut Vec<char>, label: &str, text: &[char])
    ensures
        final(r)@ == old(r)@ + section(label@, text@),
{
    if text.len() == 0 {
        assert(old(r)@ + Seq::<char>::empty() =~= old(r)@);
        return ;
    }
    extend_str(r, label);
    extend(r, text);
    if text[text.len() - 1] != '\n' {
        r.push('\n');
        assert(old(r)@ + label@ + text@ + seq!['\n'] =~= old(r)@ + (label@ + text@.push('\n')));
    } else {
        assert(old(r)@ + label@ + text@ =~= old(r)@ + (label@ + text@));
    }
}

/// The report for a finished command (see [`command_report`]).
pub fn format_command_output(stdout: &str, stderr: &str, exit_code: Option<i32>, success: bool) -> (r:
    String)
    ensures
        r@ == command_report(stdout@, stderr@, exit_code, success),
{
    let out = chars_of(stdout);
    let err = chars_of(stderr);
    let mut body: Vec<char> = Vec::new();
    push_section(&mut body, "STDOUT:\n", out.as_slice());
    push_section(&mut body, "STDERR:\n", err.as_slice());
    assert(body@ =~= section("STDOUT:\n"@, stdout@) + section("STDERR:\n"@, stderr@));
    let mut r: Vec<char> = if body.len() == 0 {
        chars_of("(command executed successfully with no output)\n")
    } else {
        body
    };
    extend_str(&mut r, "Exit code: ");
    let code: i64 = match exit_code {
        Some(c) => c as i64,
        None => -1,
    };
    let digits = signed_decimal_exec(code);
    extend(&mut r, digits.as_slice());
    extend_str(&mut r, "\n");
    if !success {
        extend_str(&mut r, "⚠️  Command failed with non-zero exit code\n");
    } else {
        assert(r@ + Seq::<char>::empty() =~= r@);
    }
    string_of(r.as_slice())
}

/// Captured lines joined back into one text, each line ended by a newline.
pub fn join_output_lines(lines: &Vec<String>) -> (r: String)
    ensures
        r@ == terminated_lines(lines.deep_view()),
{
    let ghost dv = lines.deep_view();
    let mut r: Vec<char> = Vec::new();
    let mut i: usize = 0;
    while i < lines.len()
        invariant
            i <= lines@.len(),
            dv == lines.deep_view(),
            dv.len() == lines@.len(),
            r@ == terminated_lines(dv.take(i as int)),
        decreases lines@.len() - i,
    {
        assert(dv.take(i + 1).drop_last() =~= dv.take(i as int));
        assert(dv[i as int] == lines@[i as int]@);
        extend_str(&mut r, lines[i].as_str());
        r.push('\n');
        i += 1;
    }
    assert(dv.take(lines@.len() as int) =~= dv);
    string_of(r.as_slice())
}

} // verus!
