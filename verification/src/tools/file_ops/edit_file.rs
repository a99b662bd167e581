//! Editing a file by replacing exact text: how many matches there are, what
//! the file becomes, and the refusals.
use crate::text::{chars_of, decimal, decimal_exec, extend, extend_str, find_from, find_from_exec, occurs_at, owned, second_piece, second_piece_exec, string_of, take_chars};
use crate::tools::error::ToolError;
use crate::tools::file_ops::write_file::first_piece;
use crate::tools::permissions::ToolPermissionDescriptor;
use std::path::PathBuf;
use vstd::prelude::*;
use vstd::utf8::{decode_utf8, encode_utf8};

verus! {

/// How many times a non-empty `p` matches in `s` at or after `pos`, left to
/// right without overlap.
pub open spec fn count_from(s: Seq<char>, p: Seq<char>, pos: int) -> nat
    decreases s.len() - pos,
{
    if p.len() == 0 || pos < 0 || pos > s.len() {
        0
    } else {
        match find_from(s, p, pos) {
            Some(i) => if pos <= i && i + p.len() <= s.len() {
                1 + count_from(s, p, i + p.len())
            } else {
                0
            },
            None => 0,
        }
    }
}

/// How many times `p` matches in `s`, left to right without overlap
/// (`str::matches(..).count()`); an empty `p` matches at every character
/// boundary.
pub open spec fn count_matches(s: Seq<char>, p: Seq<char>) -> nat {
    if p.len() == 0 {
        s.len() + 1
    } else {
        count_from(s, p, 0)
    }
}

/// `r` before every character of `s` and after the last (`str::replace`
/// with an empty pattern).
pub open spec fn interleave(s: Seq<char>, r: Seq<char>) -> Seq<char>
    decreases s.len(),
{
    if s.len() == 0 {
        r
    } else {
        r + seq![s[0]] + interleave(s.drop_first(), r)
    }
}

/// `s` from `pos` on, with every match of a non-empty `p` replaced by `r`.
pub open spec fn replace_from(s: Seq<char>, p: Seq<char>, r: Seq<char>, pos: int) -> Seq<char>
    decreases s.len() - pos,
{
    if p.len() == 0 || pos < 0 || pos > s.len() {
        Seq::empty()
    } else {
        match find_from(s, p, pos) {
            Some(i) => if pos <= i && i + p.len() <= s.len() {
                s.subrange(pos, i) + r + replace_from(s, p, r, i + p.len())
            } else {
                s.skip(pos)
            },
            None => s.skip(pos),
        }
    }
}

/// `s` with every match of `p` replaced by `r` (`str::replace`).
pub open spec fn replace_all_matches(s: Seq<char>, p: Seq<char>, r: Seq<char>) -> Seq<char> {
    if p.len() == 0 {
        interleave(s, r)
    } else {
        replace_from(s, p, r, 0)
    }
}

/// `s` with the first match of `p` replaced by `r` (`str::replacen(.., 1)`).
pub open spec fn replace_first_match(s: Seq<char>, p: Seq<char>, r: Seq<char>) -> Seq<char> {
    if p.len() == 0 {
        r + s
    } else {
        match find_from(s, p, 0) {
            Some(i) => s.take(i) + r + s.skip(i + p.len()),
            None => s,
        }
    }
}

/// The searched text as a refusal quotes it: cut to its first 50 bytes,
/// with `...`, when it is longer.
pub open spec fn quoted_search(old: Seq<char>) -> Seq<char> {
    if encode_utf8(old).len() > 50 {
        decode_utf8(encode_utf8(old).subrange(0, 50)) + "..."@
    } else {
        old
    }
}

/// What an edit of `content` does: the new content and the number of
/// replacements, or why it is refused.
pub open spec fn edit_outcome(content: Seq<char>, old: Seq<char>, new: Seq<char>, replace_all: bool) -> Result<
    (Seq<char>, nat),
    Seq<char>,
> {
    let n = count_matches(content, old);
    if n == 0 {
        Err("String not found in file: '"@ + quoted_search(old) + "'"@)
    } else if replace_all {
        Ok((replace_all_matches(content, old, new), n))
    } else if n == 1 {
        Ok((replace_first_match(content, old, new), 1))
    } else {
        Err(
            "String appears "@ + decimal(n)
                + " times in file. Use replace_all=true to replace all occurrences, or provide more context to make the match unique."@,
        )
    }
}

/// What the tool answers after an edit of the file shown as `path`.
pub open spec fn edit_report(path: Seq<char>, n: nat) -> Seq<char> {
    "Successfully edited "@ + path + " (replaced "@ + decimal(n) + " occurrence"@ + (if n == 1 {
        Seq::empty()
    } else {
        "s"@
    }) + ")"@
}

/// The one-line summary of an edit report.
pub open spec fn edit_summary(result: Seq<char>) -> Seq<char> {
    match second_piece(result, "replaced "@) {
        Some(p) => {
            let count = first_piece(p, " occurrence"@);
            "Replaced "@ + count + " occurrence"@ + (if count == "1"@ {
                Seq::empty()
            } else {
                "s"@
            })
        },
        None => "File edited successfully"@,
    }
}

/// How an edit call is shown.
pub open spec fn edit_call_display(path: Option<Seq<char>>) -> Seq<char> {
    match path {
        Some(p) => "Edit("@ + p + ")"@,
        None => "Edit(?)"@,
    }
}

/// How many times `p` matches in `s` (see [`count_matches`]).
pub fn count_matches_exec(s: &[char], p: &[char]) -> (r: usize)
    requires
        s@.len() < usize::MAX,
    ensures
        r == count_matches(s@, p@),
{
    if p.len() == 0 {
        return s.len() + 1;
    }
    let mut n: usize = 0;
    let mut pos: usize = 0;
    loop
        invariant
            p@.len() > 0,
            pos <= s@.len(),
            n <= pos,
            n + count_from(s@, p@, pos as int) == count_from(s@, p@, 0),
        decreases s@.len() - pos,
    {
        match find_from_exec(s, p, pos) {
            None => {
                return n;
            },
            Some(i) => {
                assert(occurs_at(s@, p@, i as int));
                let slen = s.len();
                assert(i + p@.len() <= slen);
                n += 1;
                pos = i + p.len();
            },
        }
    }
}

/// `s` with every match of a non-empty `p` replaced by `r`.
fn replace_all_exec(s: &[char], p: &[char], r: &[char]) -> (out: Vec<char>)
    requires
        p@.len() > 0,
    ensures
        out@ == replace_all_matches(s@, p@, r@),
{
    let mut out: Vec<char> = Vec::new();
    let mut pos: usize = 0;
    loop
        invariant
            p@.len() > 0,
            pos <= s@.len(),
            out@ + replace_from(s@, p@, r@, pos as int) == replace_from(s@, p@, r@, 0),
        decreases s@.len() - pos,
    {
        match find_from_exec(s, p, pos) {
            None => {
                let tail = crate::text::skip_chars(s, pos);
                extend(&mut out, tail.as_slice());
                return out;
            },
            Some(i) => {
                assert(occurs_at(s@, p@, i as int));
                let slen = s.len();
                assert(i + p@.len() <= slen);
                let next = i + p.len();
                let piece = crate::text::slice_chars(s, pos, i);
                let ghost before = out@;
                extend(&mut out, piece.as_slice());
                extend(&mut out, r);
                assert(before + (s@.subrange(pos as int, i as int) + r@ + replace_from(
                    s@,
                    p@,
                    r@,
                    next as int,
                )) =~= out@ + replace_from(s@, p@, r@, next as int));
                pos = next;
            },
        }
    }
}

/// `r` before every character of `s` and after the last.
fn interleave_exec(s: &[char], r: &[char]) -> (out: Vec<char>)
    ensures
        out@ == interleave(s@, r@),
{
    let mut out: Vec<char> = Vec::new();
    let mut i: usize = 0;
    assert(s@.skip(0) =~= s@);
    while i < s.len()
        invariant
            i <= s@.len(),
            out@ + interleave(s@.skip(i as int), r@) == interleave(s@, r@),
        decreases s@.len() - i,
    {
        let ghost rest = s@.skip(i as int);
        assert(rest.drop_first() =~= s@.skip(i + 1));
        let ghost before = out@;
        extend(&mut out, r);
        out.push(s[i]);
        assert(before + (r@ + seq![rest[0]] + interleave(s@.skip(i + 1), r@)) =~= out@ + interleave(
            s@.skip(i + 1),
            r@,
        ));
        i += 1;
    }
    assert(s@.skip(i as int) =~= Seq::<char>::empty());
    extend(&mut out, r);
    out
}

/// The new content of an edit: every match replaced when `replace_all`,
/// else the first.
pub fn replacement(cs: &[char], old: &[char], new: &[char], replace_all: bool) -> (r: Vec<char>)
    ensures
        r@ == (if replace_all {
            replace_all_matches(cs@, old@, new@)
        } else {
            replace_first_match(cs@, old@, new@)
        }),
{
    if replace_all {
        if old.len() == 0 {
            interleave_exec(cs, new)
        } else {
            replace_all_exec(cs, old, new)
        }
    } else if old.len() == 0 {
        let mut o: Vec<char> = Vec::new();
        extend(&mut o, new);
        extend(&mut o, cs);
        o
    } else {
        match find_from_exec(cs, old, 0) {
            Some(i) => {
                assert(occurs_at(cs@, old@, i as int));
                let clen = cs.len();
                assert(i + old@.len() <= clen);
                let mut o = take_chars(cs, i);
                extend(&mut o, new);
                let tail = crate::text::skip_chars(cs, i + old.len());
                extend(&mut o, tail.as_slice());
                o
            },
            None => {
                let mut o: Vec<char> = Vec::new();
                extend(&mut o, cs);
                o
            },
        }
    }
}

/// The arguments of an edit call: the file, the text to find, its
/// replacement, and whether every occurrence is replaced.
pub struct EditFileArgs {
    pub path: String,
    pub old_string: String,
    pub new_string: String,
    pub replace_all: bool,
}

pub struct EditFileTool {
    working_directory: PathBuf,
}

impl EditFileTool {
    /// The directory relative paths are edited under.
    pub closed spec fn directory(&self) -> PathBuf {
        self.working_directory
    }

    pub fn with_working_directory(working_dir: PathBuf) -> (r: Self)
        ensures
            r.directory() == working_dir,
    {
        Self { working_directory: working_dir }
    }

    /// The directory relative paths are edited under.
    pub fn working_directory(&self) -> (r: &PathBuf)
        ensures
            *r == self.directory(),
    {
        &self.working_directory
    }

    pub fn name(&self) -> (r: &'static str)
        ensures
            r@ == "edit_file"@,
    {
        "edit_file"
    }

    pub fn display_name(&self) -> (r: &'static str)
        ensures
            r@ == "edit"@,
    {
        "edit"
    }

    /// Refuses an edit that would change nothing, before the file is read.
    pub fn check_strings(old_string: &str, new_string: &str) -> (r: Result<(), ToolError>)
        ensures
            old_string@ == new_string@ ==> (r matches Err(ToolError::EditFailed { message })
                && message@ == "old_string and new_string must be different"@),
            old_string@ != new_string@ ==> r is Ok,
    {
        let a = chars_of(old_string);
        let b = chars_of(new_string);
        if crate::text::eq_chars(a.as_slice(), b.as_slice()) {
            Err(ToolError::EditFailed { message: owned("old_string and new_string must be different") })
        } else {
            Ok(())
        }
    }

    /// Replaces `old_string` in `content` (see [`edit_outcome`]): every match
    /// when `replace_all`, else the one match there must be. A refusal is an
    /// edit error. A search text that is not found and is longer than 50
    /// bytes must have a character boundary at byte 50, where it is cut.
    pub fn replace_in(content: &str, old_string: &str, new_string: &str, replace_all: bool) -> (r:
        Result<(String, usize), ToolError>)
        requires
            content@.len() < usize::MAX,
            encode_utf8(old_string@).len() <= usize::MAX,
            count_matches(content@, old_string@) == 0 && encode_utf8(old_string@).len() > 50
                ==> vstd::utf8::is_char_boundary(encode_utf8(old_string@), 50),
        ensures
            match edit_outcome(content@, old_string@, new_string@, replace_all) {
                Ok((t, n)) => r matches Ok((c, k)) && c@ == t && k == n,
                Err(m) => r matches Err(ToolError::EditFailed { message }) && message@ == m,
            },
    {
        let cs = chars_of(content);
        let old = chars_of(old_string);
        let new = chars_of(new_string);
        let n = count_matches_exec(cs.as_slice(), old.as_slice());
        if n == 0 {
            let mut m = chars_of("String not found in file: '");
            if old_string.len() > 50 {
                let (head, _tail) = old_string.split_at(50);
                proof {
                    vstd::utf8::encode_utf8_decode_utf8(head@);
                }
                extend_str(&mut m, head);
                extend_str(&mut m, "...");
                assert(head@ + "..."@ == quoted_search(old_string@));
            } else {
                extend_str(&mut m, old_string);
            }
            extend_str(&mut m, "'");
            return Err(ToolError::EditFailed { message: string_of(m.as_slice()) });
        }
        if replace_all || n == 1 {
            let out = replacement(cs.as_slice(), old.as_slice(), new.as_slice(), replace_all);
            let k: usize = if replace_all {
                n
            } else {
                1
            };
            return Ok((string_of(out.as_slice()), k));
        }
        let mut m = chars_of("String appears ");
        extend(&mut m, decimal_exec(n).as_slice());
        extend_str(
            &mut m,
            " times in file. Use replace_all=true to replace all occurrences, or provide more context to make the match unique.",
        );
        Err(ToolError::EditFailed { message: string_of(m.as_slice()) })
    }

    /// What the tool answers after an edit (see [`edit_report`]).
    pub fn report(path_display: &str, n: usize) -> (r: String)
        ensures
            r@ == edit_report(path_display@, n as nat),
    {
        let mut r = chars_of("Successfully edited ");
        extend_str(&mut r, path_display);
        extend_str(&mut r, " (replaced ");
        extend(&mut r, decimal_exec(n).as_slice());
        extend_str(&mut r, " occurrence");
        if n != 1 {
            extend_str(&mut r, "s");
        } else {
            assert(r@ + Seq::<char>::empty() =~= r@);
        }
        extend_str(&mut r, ")");
        string_of(r.as_slice())
    }

    /// The one-line summary of an edit report (see [`edit_summary`]).
    pub fn result_summary(&self, result: &str) -> (r: String)
        ensures
            r@ == edit_summary(result@),
    {
        let rs = chars_of(result);
        let sep = chars_of("replaced ");
        proof {
            reveal_strlit("replaced ");
        }
        match second_piece_exec(rs.as_slice(), sep.as_slice()) {
            Some(p) => {
                let osep = chars_of(" occurrence");
                proof {
                    reveal_strlit(" occurrence");
                }
                let count = match find_from_exec(p.as_slice(), osep.as_slice(), 0) {
                    Some(j) => {
                        assert(occurs_at(p@, osep@, j as int));
                        take_chars(p.as_slice(), j)
                    },
                    None => p,
                };
                let mut r = chars_of("Replaced ");
                extend(&mut r, count.as_slice());
                extend_str(&mut r, " occurrence");
                let one = chars_of("1");
                if !crate::text::eq_chars(count.as_slice(), one.as_slice()) {
                    extend_str(&mut r, "s");
                } else {
                    assert(r@ + Seq::<char>::empty() =~= r@);
                }
                string_of(r.as_slice())
            },
            None => owned("File edited successfully"),
        }
    }

    /// How an edit call is shown.
    pub fn call_display(path: Option<&str>) -> (r: String)
        ensures
            r@ == edit_call_display(
                match path {
                    Some(p) => Some(p@),
                    None => None,
                },
            ),
    {
        match path {
            Some(p) => {
                let mut r = chars_of("Edit(");
                extend_str(&mut r, p);
                extend_str(&mut r, ")");
                string_of(r.as_slice())
            },
            None => owned("Edit(?)"),
        }
    }

    /// How an edit call is shown, from its arguments: the path as
    /// [`EditFileTool::call_display`] shows it, or `Edit(?)` when the
    /// arguments did not parse (`None`).
    pub fn format_call_display(&self, args: Option<&EditFileArgs>) -> (r: String)
        ensures
            r@ == edit_call_display(
                match args {
                    Some(a) => Some(a.path@),
                    None => None,
                },
            ),
    {
        match args {
            Some(a) => Self::call_display(Some(a.path.as_str())),
            None => Self::call_display(None),
        }
    }

    /// The permission request for editing `target`: destructive.
    pub fn describe_permission(&self, target: Option<&str>) -> (r: ToolPermissionDescriptor)
        ensures
            r.kind@ == "edit_file"@,
            r.target@ == match target {
                Some(t) => t@,
                None => "*"@,
            },
            !r.read_only,
            r.destructive,
    {
        let t: &str = match target {
            Some(t) => t,
            None => "*",
        };
        ToolPermissionDescriptor {
            kind: owned("edit_file"),
            target: owned(t),
            read_only: false,
            destructive: true,
            approval_title: None,
            approval_prompt: None,
            persistent_message: None,
            suggested_pattern: None,
            command_preview: None,
        }
    }
}

/// When the searched text occurs exactly once, replacing all occurrences and
/// replacing the unique one give the same file.
pub proof fn law_single_match_replacements_agree(s: Seq<char>, p: Seq<char>, r: Seq<char>)
    requires
        count_matches(s, p) == 1,
    ensures
        replace_all_matches(s, p, r) == replace_first_match(s, p, r),
{
    if p.len() == 0 {
        assert(s.len() == 0);
        assert(r + s =~= r);
    } else {
        let i = find_from(s, p, 0)->0;
        assert(find_from(s, p, 0) is Some);
        assert(0 <= i && occurs_at(s, p, i));
        let next = i + p.len();
        assert(count_from(s, p, next) == 0);
        if find_from(s, p, next) is Some {
            let j = find_from(s, p, next)->0;
            assert(next <= j && occurs_at(s, p, j));
            assert(count_from(s, p, next) >= 1);
        }
        assert(replace_from(s, p, r, next) == s.skip(next));
        assert(s.subrange(0, i) =~= s.take(i));
    }
}

/// An edit that is carried out reports as many replacements as there are
/// matches, and at least one.
pub proof fn law_edit_counts_matches(content: Seq<char>, old: Seq<char>, new: Seq<char>, replace_all: bool)
    requires
        edit_outcome(content, old, new, replace_all) is Ok,
    ensures
        edit_outcome(content, old, new, replace_all)->Ok_0.1 == count_matches(content, old),
        count_matches(content, old) >= 1,
{
}

} // verus!
