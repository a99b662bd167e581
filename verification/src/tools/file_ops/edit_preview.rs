//! The preview of an edit: the changed lines of the file, with five lines of
//! context around each change, numbered in the old and the new file.
use crate::text::{chars_of, decimal, decimal_exec, extend, extend_str, pad4, pad4_exec, string_of, trim_end, trim_end_chars};
use crate::tools::file_ops::edit_file::{count_matches, count_matches_exec, replacement, replace_all_matches, replace_first_match};
use similar::{ChangeTag, TextDiff};
use vstd::prelude::*;

verus! {

/// What happened to a line between the old and the new text.
#[derive(Debug, Clone, Copy, PartialEq, Eq, Structural)]
pub enum ChangeKind {
    Equal,
    Delete,
    Insert,
}

/// One line of a line diff, with its line ending as the diff prints it.
pub struct DiffLine {
    pub kind: ChangeKind,
    pub text: String,
}

impl View for DiffLine {
    type V = (ChangeKind, Seq<char>);

    open spec fn view(&self) -> (ChangeKind, Seq<char>) {
        (self.kind, self.text@)
    }
}

/// The views of a list of diff lines.
pub open spec fn diff_views(v: Seq<DiffLine>) -> Seq<(ChangeKind, Seq<char>)> {
    Seq::new(v.len(), |i: int| v[i]@)
}

/// The line diff `similar` computes between two texts
/// (`TextDiff::from_lines`, then `iter_all_changes`): each line's tag and
/// its printed form.
pub uninterp spec fn line_diff(old: Seq<char>, new: Seq<char>) -> Seq<(ChangeKind, Seq<char>)>;

/// Diffs two texts line by line with `similar` (Myers' algorithm, no
/// deadline). The contract claims only that the answer is the crate's
/// (deterministic) diff of the two texts, named [`line_diff`].
#[verifier::external_body]
fn diff_lines(old: &str, new: &str) -> (r: Vec<DiffLine>)
    ensures
        diff_views(r@) == line_diff(old@, new@),
{
    let diff = TextDiff::from_lines(old, new);
    let mut out = Vec::new();
    for change in diff.iter_all_changes() {
        let kind = match change.tag() {
            ChangeTag::Equal => ChangeKind::Equal,
            ChangeTag::Delete => ChangeKind::Delete,
            ChangeTag::Insert => ChangeKind::Insert,
        };
        out.push(DiffLine { kind, text: change.to_string() });
    }
    out
}

/// How a piece of the preview is to be shown.
#[derive(Debug, Clone, Copy, PartialEq, Eq, Structural)]
pub enum TextStyle {
    Plain,
    Bold,
    BoldCyan,
    BoldBrightCyan,
    Yellow,
    Dimmed,
    BrightRed,
    Green,
}

/// A piece of text and its style.
pub struct StyledText {
    pub text: String,
    pub style: TextStyle,
}

/// The views of a list of styled pieces.
pub open spec fn styled_views(v: Seq<StyledText>) -> Seq<(Seq<char>, TextStyle)> {
    Seq::new(v.len(), |i: int| (v[i].text@, v[i].style))
}

/// How many lines of context are shown around a change.
pub const CONTEXT_LINES: usize = 5;

/// Whether the line at `i` is shown: it lies within five lines of a change.
pub open spec fn shown(ch: Seq<(ChangeKind, Seq<char>)>, i: int) -> bool {
    0 <= i < ch.len() && exists|j: int|
        0 <= j < ch.len() && ch[j].0 != ChangeKind::Equal && j - 5 <= i <= j + 5
}

/// Whether some line changes.
pub open spec fn any_change(ch: Seq<(ChangeKind, Seq<char>)>) -> bool {
    exists|j: int| 0 <= j < ch.len() && ch[j].0 != ChangeKind::Equal
}

/// How many of the first `n` lines belong to the old text.
pub open spec fn old_count(ch: Seq<(ChangeKind, Seq<char>)>, n: int) -> nat
    decreases n,
{
    if n <= 0 {
        0
    } else if ch[n - 1].0 != ChangeKind::Insert {
        old_count(ch, n - 1) + 1
    } else {
        old_count(ch, n - 1)
    }
}

/// How many of the first `n` lines belong to the new text.
pub open spec fn new_count(ch: Seq<(ChangeKind, Seq<char>)>, n: int) -> nat
    decreases n,
{
    if n <= 0 {
        0
    } else if ch[n - 1].0 != ChangeKind::Delete {
        new_count(ch, n - 1) + 1
    } else {
        new_count(ch, n - 1)
    }
}

/// The shown form of the line at `i`: its old and new line numbers where it
/// has them, its mark, its text without trailing whitespace, and its color.
pub open spec fn change_line(ch: Seq<(ChangeKind, Seq<char>)>, i: int) -> (Seq<char>, TextStyle) {
    let content = trim_end(ch[i].1);
    let o = pad4(old_count(ch, i + 1));
    let n = pad4(new_count(ch, i + 1));
    match ch[i].0 {
        ChangeKind::Delete => ("  "@ + o + " "@ + "    "@ + " - "@ + content, TextStyle::BrightRed),
        ChangeKind::Insert => ("  "@ + "    "@ + " "@ + n + " + "@ + content, TextStyle::Green),
        ChangeKind::Equal => ("  "@ + o + " "@ + n + "   "@ + content, TextStyle::Dimmed),
    }
}

/// The shown lines from index `i` on, after the shown line `last`: an
/// ellipsis where lines were skipped, then each shown line.
pub open spec fn diff_body(ch: Seq<(ChangeKind, Seq<char>)>, i: int, last: Option<int>) -> Seq<
    (Seq<char>, TextStyle),
>
    decreases ch.len() - i,
{
    if i >= ch.len() || i < 0 {
        Seq::empty()
    } else if !shown(ch, i) {
        diff_body(ch, i + 1, last)
    } else {
        let gap = match last {
            Some(k) => i > k + 1,
            None => false,
        };
        let dots = if gap {
            seq![("  "@, TextStyle::Plain), ("..."@, TextStyle::Dimmed), ("\n"@, TextStyle::Plain)]
        } else {
            Seq::empty()
        };
        dots + seq![change_line(ch, i), ("\n"@, TextStyle::Plain)] + diff_body(ch, i + 1, Some(i))
    }
}

/// The first lines of an edit preview: how many places are replaced.
pub open spec fn replace_header(r: nat) -> Seq<(Seq<char>, TextStyle)> {
    seq![
        (
            "Will replace "@ + decimal(r) + " occurrence"@ + (if r == 1 {
                Seq::empty()
            } else {
                "s"@
            }) + ":"@,
            TextStyle::BoldCyan,
        ),
        ("\n\n"@, TextStyle::Plain),
    ]
}

/// The preview of a line diff of an edit with `r` replacements: the header,
/// then, when some line changes, the shown lines.
pub open spec fn diff_preview(r: nat, ch: Seq<(ChangeKind, Seq<char>)>) -> Seq<(Seq<char>, TextStyle)> {
    if any_change(ch) {
        replace_header(r) + diff_body(ch, 0, None)
    } else {
        replace_header(r)
    }
}

/// The preview of an edit of `content`: a refusal when nothing or (without
/// `replace_all`) more than one place matches; else a header with the
/// number of replacements and the changed lines with their context.
pub open spec fn edit_preview(content: Seq<char>, old: Seq<char>, new: Seq<char>, replace_all: bool) -> Seq<
    (Seq<char>, TextStyle),
> {
    let n = count_matches(content, old);
    if n == 0 {
        seq![("No matches found for:\n"@ + old, TextStyle::Plain)]
    } else if !replace_all && n > 1 {
        seq![
            ("Found "@ + decimal(n) + " matches (use replace_all=true to replace all)"@, TextStyle::Plain),
        ]
    } else {
        let r: nat = if replace_all {
            n
        } else {
            1
        };
        let updated = if replace_all {
            replace_all_matches(content, old, new)
        } else {
            replace_first_match(content, old, new)
        };
        diff_preview(r, line_diff(content, updated))
    }
}

/// Adds a styled piece.
pub fn push_styled(out: &mut Vec<StyledText>, text: Vec<char>, style: TextStyle)
    ensures
        styled_views(final(out)@) == styled_views(old(out)@).push((text@, style)),
{
    let t = string_of(text.as_slice());
    out.push(StyledText { text: t, style });
    assert(styled_views(out@) =~= styled_views(old(out)@).push((text@, style)));
}

/// Whether the line at `i` is shown (see [`shown`]).
fn shown_exec(ch: &Vec<DiffLine>, i: usize) -> (r: bool)
    requires
        i < ch@.len(),
    ensures
        r == shown(diff_views(ch@), i as int),
{
    let ghost cv = diff_views(ch@);
    let lo: usize = if i >= 5 {
        i - 5
    } else {
        0
    };
    let mut j = lo;
    while j < ch.len() && (j <= i || j - i <= 5)
        invariant
            lo <= j,
            i < ch@.len(),
            cv == diff_views(ch@),
            lo == (if i >= 5 {
                i - 5
            } else {
                0
            }),
            forall|k: int| lo <= k < j ==> cv[k].0 == ChangeKind::Equal,
        decreases ch@.len() - j,
    {
        if ch[j].kind != ChangeKind::Equal {
            assert(cv[j as int].0 != ChangeKind::Equal && j - 5 <= i <= j + 5);
            return true;
        }
        j += 1;
    }
    assert forall|k: int| 0 <= k < cv.len() && cv[k].0 != ChangeKind::Equal implies !(k - 5 <= i
        <= k + 5) by {
        if k - 5 <= i <= k + 5 {
            assert(lo <= k);
        }
    }
    false
}

/// The shown form of the line at `i` (see [`change_line`]), given the old
/// and new line counts up to and including it.
fn change_line_exec(ch: &Vec<DiffLine>, i: usize, o: usize, n: usize) -> (r: (Vec<char>, TextStyle))
    requires
        i < ch@.len(),
        o == old_count(diff_views(ch@), i + 1),
        n == new_count(diff_views(ch@), i + 1),
    ensures
        (r.0@, r.1) == change_line(diff_views(ch@), i as int),
{
    let text = chars_of(ch[i].text.as_str());
    let content = trim_end_chars(text.as_slice());
    let mut line = chars_of("  ");
    match ch[i].kind {
        ChangeKind::Delete => {
            extend(&mut line, pad4_exec(o).as_slice());
            extend_str(&mut line, " ");
            extend_str(&mut line, "    ");
            extend_str(&mut line, " - ");
            extend(&mut line, content.as_slice());
            (line, TextStyle::BrightRed)
        },
        ChangeKind::Insert => {
            extend_str(&mut line, "    ");
            extend_str(&mut line, " ");
            extend(&mut line, pad4_exec(n).as_slice());
            extend_str(&mut line, " + ");
            extend(&mut line, content.as_slice());
            (line, TextStyle::Green)
        },
        ChangeKind::Equal => {
            extend(&mut line, pad4_exec(o).as_slice());
            extend_str(&mut line, " ");
            extend(&mut line, pad4_exec(n).as_slice());
            extend_str(&mut line, "   ");
            extend(&mut line, content.as_slice());
            (line, TextStyle::Dimmed)
        },
    }
}

/// The preview of an edit (see [`edit_preview`]).
pub fn generate_diff(content: &str, old_string: &str, new_string: &str, replace_all: bool) -> (r: Vec<
    StyledText,
>)
    requires
        content@.len() < usize::MAX,
    ensures
        styled_views(r@) == edit_preview(content@, old_string@, new_string@, replace_all),
{
    let cs = chars_of(content);
    let old = chars_of(old_string);
    let new = chars_of(new_string);
    let n = count_matches_exec(cs.as_slice(), old.as_slice());
    let mut out: Vec<StyledText> = Vec::new();
    if n == 0 {
        let mut t = chars_of("No matches found for:\n");
        extend(&mut t, old.as_slice());
        push_styled(&mut out, t, TextStyle::Plain);
        return out;
    }
    if !replace_all && n > 1 {
        let mut t = chars_of("Found ");
        extend(&mut t, decimal_exec(n).as_slice());
        extend_str(&mut t, " matches (use replace_all=true to replace all)");
        push_styled(&mut out, t, TextStyle::Plain);
        return out;
    }
    let replacements: usize = if replace_all {
        n
    } else {
        1
    };
    let updated = replacement(cs.as_slice(), old.as_slice(), new.as_slice(), replace_all);
    let updated_text = string_of(updated.as_slice());
    let ch = diff_lines(content, updated_text.as_str());
    render_diff(replacements, &ch)
}

/// The preview of a line diff of an edit with `replacements` replacements
/// (see [`diff_preview`]): what the edit preview shows once the lines are
/// diffed.
pub fn render_diff(replacements: usize, ch: &Vec<DiffLine>) -> (r: Vec<StyledText>)
    ensures
        styled_views(r@) == diff_preview(replacements as nat, diff_views(ch@)),
{
    let mut out: Vec<StyledText> = Vec::new();
    let ghost cv = diff_views(ch@);
    let mut header = chars_of("Will replace ");
    extend(&mut header, decimal_exec(replacements).as_slice());
    extend_str(&mut header, " occurrence");
    if replacements != 1 {
        extend_str(&mut header, "s");
    } else {
        assert(header@ + Seq::<char>::empty() =~= header@);
    }
    extend_str(&mut header, ":");
    push_styled(&mut out, header, TextStyle::BoldCyan);
    push_styled(&mut out, chars_of("\n\n"), TextStyle::Plain);
    let ghost head = styled_views(out@);
    let mut any = false;
    let mut j: usize = 0;
    while j < ch.len()
        invariant
            j <= ch@.len(),
            cv == diff_views(ch@),
            any == exists|k: int| 0 <= k < j && cv[k].0 != ChangeKind::Equal,
        decreases ch@.len() - j,
    {
        assert(cv[j as int].0 == ch@[j as int].kind);
        if ch[j].kind != ChangeKind::Equal {
            any = true;
        } else {
            assert forall|k: int| 0 <= k < j + 1 && cv[k].0 != ChangeKind::Equal implies k < j by {}
        }
        j += 1;
    }
    if !any {
        return out;
    }
    let mut last: Option<usize> = None;
    let mut o: usize = 0;
    let mut nc: usize = 0;
    let mut i: usize = 0;
    while i < ch.len()
        invariant
            i <= ch@.len(),
            cv == diff_views(ch@),
            o == old_count(cv, i as int),
            nc == new_count(cv, i as int),
            o <= i,
            nc <= i,
            match last {
                Some(k) => k < i,
                None => true,
            },
            styled_views(out@) + diff_body(
                cv,
                i as int,
                match last {
                    Some(k) => Some(k as int),
                    None => None,
                },
            ) == head + diff_body(cv, 0, None),
        decreases ch@.len() - i,
    {
        if ch[i].kind != ChangeKind::Insert {
            o += 1;
        }
        if ch[i].kind != ChangeKind::Delete {
            nc += 1;
        }
        let ghost lastv = match last {
            Some(k) => Some(k as int),
            None => None::<int>,
        };
        let ghost before = styled_views(out@);
        if shown_exec(&ch, i) {
            let gap = match last {
                Some(k) => i > k + 1,
                None => false,
            };
            if gap {
                push_styled(&mut out, chars_of("  "), TextStyle::Plain);
                push_styled(&mut out, chars_of("..."), TextStyle::Dimmed);
                push_styled(&mut out, chars_of("\n"), TextStyle::Plain);
            }
            let ghost mid = styled_views(out@);
            let (line, style) = change_line_exec(&ch, i, o, nc);
            push_styled(&mut out, line, style);
            push_styled(&mut out, chars_of("\n"), TextStyle::Plain);
            proof {
                let dots = if gap {
                    seq![("  "@, TextStyle::Plain), ("..."@, TextStyle::Dimmed), ("\n"@, TextStyle::Plain)]
                } else {
                    Seq::<(Seq<char>, TextStyle)>::empty()
                };
                assert(mid =~= before + dots);
                assert(styled_views(out@) =~= before + dots + seq![
                    change_line(cv, i as int),
                    ("\n"@, TextStyle::Plain),
                ]);
                assert(diff_body(cv, i as int, lastv) == dots + seq![
                    change_line(cv, i as int),
                    ("\n"@, TextStyle::Plain),
                ] + diff_body(cv, i + 1, Some(i as int)));
                assert(styled_views(out@) + diff_body(cv, i + 1, Some(i as int)) =~= before
                    + diff_body(cv, i as int, lastv));
            }
            last = Some(i);
        }
        i += 1;
    }
    assert(styled_views(out@) + diff_body(cv, i as int, match last {
        Some(k) => Some(k as int),
        None => None,
    }) =~= styled_views(out@));
    out
}

} // verus!
